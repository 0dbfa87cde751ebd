//! The requests on the user table: what each does to the table and how it
//! is answered.

use vstd::prelude::*;
use crate::env::Env;
use crate::reply::Reply;
use crate::scope::{scope_from_text, scope_text, UserScope};
use crate::users::{
    after_remove_login, credentials_match, hashable, login_taken, password_hash, session_token, User,
    TOKEN_LIFETIME,
};

verus! {

/// The body of a login request.
pub struct LoginData {
    pub login: String,
    pub password: String,
}

/// The body of a request to add a user; the scope is given as text.
pub struct CreateData {
    pub login: String,
    pub password: String,
    pub scope: String,
}

/// The body of a request to remove a user.
pub struct UserDeleteData {
    pub login: String,
}

/// What the listing shows of a user: the login and the scope as text,
/// never the password hash.
pub struct UserReadOnly {
    pub login: String,
    pub scope: String,
}

/// Logs in: the session token, or unauthorised exactly where no user has the
/// login and the hash of the password.
pub fn login(users: &Vec<User>, env: &Env, data: &LoginData) -> (r: Result<String, Reply>)
    requires
        hashable(env, data.password@),
    ensures
        r matches Err(e) ==> e == Reply::Unauthorized,
        !credentials_match(users@, data.login@, password_hash(env.salt(), data.password@)) ==> r is Err,
        credentials_match(users@, data.login@, password_hash(env.salt(), data.password@)) ==> r is Ok,
        r matches Ok(t) ==> {
            &&& credentials_match(users@, data.login@, password_hash(env.salt(), data.password@))
            &&& exists|now: u64|
                now <= u64::MAX - TOKEN_LIFETIME && t@ == #[trigger] session_token(
                    data.login@,
                    (now + TOKEN_LIFETIME) as u64,
                    env.secret(),
                )
        },
{
    match User::login(users, env, data.login.as_str(), data.password.as_str()) {
        None => Err(Reply::Unauthorized),
        Some(token) => Ok(token),
    }
}

/// Adds a user with the scope that the request names.  A scope text that
/// names no scope is a bad request; a login that is taken is a conflict.
pub fn create(users: &mut Vec<User>, env: &Env, data: &CreateData) -> (r: Reply)
    requires
        scope_from_text(data.scope@) is Some && !login_taken(old(users)@, data.login@) ==> hashable(
            env,
            data.password@,
        ),
    ensures
        scope_from_text(data.scope@) is None ==> r == Reply::BadRequest && final(users)@ == old(users)@,
        scope_from_text(data.scope@) is Some && login_taken(old(users)@, data.login@) ==> r
            == Reply::Conflict && final(users)@ == old(users)@,
        scope_from_text(data.scope@) is Some && !login_taken(old(users)@, data.login@) ==> {
            &&& r == Reply::Success
            &&& final(users)@.drop_last() == old(users)@
            &&& final(users)@.len() == old(users)@.len() + 1
            &&& final(users)@.last().login@ == data.login@
            &&& final(users)@.last().password@ == password_hash(env.salt(), data.password@)
            &&& scope_from_text(data.scope@) == Some(final(users)@.last().scope@)
        },
{
    let scope = match UserScope::parse(data.scope.as_str()) {
        None => {
            return Reply::BadRequest;
        },
        Some(sc) => sc,
    };
    let created = User::create(users, env, data.login.as_str(), data.password.as_str(), scope);
    if !created {
        return Reply::Conflict;
    }
    Reply::Success
}

/// The users, each with the login and the text of the scope, in the order
/// of the table.
pub fn list(users: &Vec<User>) -> (r: Vec<UserReadOnly>)
    ensures
        r@.len() == users@.len(),
        forall|i: int|
            0 <= i < users@.len() ==> {
                &&& #[trigger] r@[i].login@ == users@[i].login@
                &&& r@[i].scope@ == scope_text(users@[i].scope@)
            },
{
    let mut result: Vec<UserReadOnly> = Vec::new();
    let mut i: usize = 0;
    while i < users.len()
        invariant
            i <= users@.len(),
            result@.len() == i,
            forall|j: int|
                0 <= j < i ==> {
                    &&& #[trigger] result@[j].login@ == users@[j].login@
                    &&& result@[j].scope@ == scope_text(users@[j].scope@)
                },
        decreases users@.len() - i,
    {
        let entry = UserReadOnly {
            login: users[i].login.clone(),
            scope: users[i].scope.scope_to_str(),
        };
        result.push(entry);
        i += 1;
    }
    result
}

/// Removes the user with the login; a bad request where there is none.
pub fn delete(users: &mut Vec<User>, data: &UserDeleteData) -> (r: Reply)
    ensures
        r == (if login_taken(old(users)@, data.login@) { Reply::Success } else { Reply::BadRequest }),
        final(users)@ == after_remove_login(old(users)@, data.login@),
{
    if !User::delete(users, data.login.as_str()) {
        return Reply::BadRequest;
    }
    Reply::Success
}

} // verus!
