//! The table of users: who may log in, with which password (kept as its
//! Argon2 hash), and with which scope; and the session tokens that a login
//! hands out.

use vstd::prelude::*;
use vstd::utf8::encode_utf8;
use crate::credentials::{argon2_encoded, hash_password, jwt_hs256, sign_token, unix_time_now};
use crate::env::Env;
use crate::scope::UserScope;
use crate::text::{chars_of, same_chars, string_from_chars};

verus! {

/// A user of the administration interface.
pub struct User {
    /// The name the user logs in with; no two users share one.
    pub login: String,
    /// The encoded Argon2 hash of the user's password.
    pub password: String,
    /// What the user may do.
    pub scope: UserScope,
}

/// How long a session token is valid: two days, in seconds.
pub const TOKEN_LIFETIME: u64 = 172800;

pub open spec fn claim_login() -> Seq<char> {
    seq!['l', 'o', 'g', 'i', 'n']
}

pub open spec fn claim_exp() -> Seq<char> {
    seq!['e', 'x', 'p']
}

/// The stored hash of `password` under the salt.
pub open spec fn password_hash(salt: Seq<char>, password: Seq<char>) -> Seq<char> {
    argon2_encoded(encode_utf8(password), encode_utf8(salt))
}

/// The session token of `login` that expires at `exp` (seconds since the
/// Unix epoch), signed with the secret: an HS256 JSON web token with the
/// claims `login` and `exp`.
pub open spec fn session_token(login: Seq<char>, exp: u64, secret: Seq<char>) -> Seq<char> {
    jwt_hs256(claim_login(), login, claim_exp(), exp, encode_utf8(secret))
}

/// Whether the password and the salt are short enough to be hashed.
pub open spec fn hashable(env: &Env, password: Seq<char>) -> bool {
    &&& encode_utf8(password).len() <= u32::MAX
    &&& encode_utf8(env.salt()).len() <= u32::MAX
}

/// Whether some user of `s` has the login.
pub open spec fn login_taken(s: Seq<User>, login: Seq<char>) -> bool {
    exists|i: int| 0 <= i < s.len() && s[i].login@ == login
}

/// Whether some user of `s` has the login and the password hash.
pub open spec fn credentials_match(s: Seq<User>, login: Seq<char>, hash: Seq<char>) -> bool {
    exists|i: int| 0 <= i < s.len() && s[i].login@ == login && s[i].password@ == hash
}

/// No two users of `s` share a login.
pub open spec fn logins_distinct(s: Seq<User>) -> bool {
    forall|i: int, j: int| 0 <= i < j < s.len() ==> s[i].login@ != s[j].login@
}

/// Whether `i` is the first position in `s` of a user with the login.
pub open spec fn is_first_with_login(s: Seq<User>, login: Seq<char>, i: int) -> bool {
    &&& 0 <= i < s.len()
    &&& s[i].login@ == login
    &&& forall|j: int| 0 <= j < i ==> s[j].login@ != login
}

/// The first position in `s` of a user with the login (meaningful where
/// [`login_taken`] holds).
pub open spec fn first_with_login(s: Seq<User>, login: Seq<char>) -> int {
    choose|i: int| is_first_with_login(s, login, i)
}

/// The table after the first user with the login is removed, where there is one.
pub open spec fn after_remove_login(s: Seq<User>, login: Seq<char>) -> Seq<User> {
    if login_taken(s, login) {
        s.remove(first_with_login(s, login))
    } else {
        s
    }
}

/// The first position is unique, so [`first_with_login`] names it.
pub proof fn lemma_first_with_login(s: Seq<User>, login: Seq<char>, i: int)
    requires
        is_first_with_login(s, login, i),
    ensures
        first_with_login(s, login) == i,
        login_taken(s, login),
{
    let j = first_with_login(s, login);
    assert(is_first_with_login(s, login, j));
    if j < i {
        assert(s[j].login@ != login);
    } else if i < j {
        assert(s[i].login@ != login);
    }
}

/// Where some user has the login, a first one does.
pub proof fn lemma_login_taken_first(s: Seq<User>, login: Seq<char>)
    requires
        login_taken(s, login),
    ensures
        is_first_with_login(s, login, first_with_login(s, login)),
    decreases s.len(),
{
    let k = choose|k: int| 0 <= k < s.len() && s[k].login@ == login;
    let d = s.drop_last();
    if login_taken(d, login) {
        lemma_login_taken_first(d, login);
        let i = first_with_login(d, login);
        assert forall|j: int| 0 <= j < i implies s[j].login@ != login by {
            assert(s[j] == d[j]);
        }
        assert(s[i] == d[i]);
        lemma_first_with_login(s, login, i);
    } else {
        if k < s.len() - 1 {
            assert(d[k] == s[k]);
        }
        assert forall|j: int| 0 <= j < k implies s[j].login@ != login by {
            assert(s[j] == d[j]);
        }
        lemma_first_with_login(s, login, k);
    }
}

impl User {
    /// The first position of a user with the login, if any.
    pub fn position(users: &Vec<User>, login: &str) -> (r: Option<usize>)
        ensures
            match r {
                Some(i) => is_first_with_login(users@, login@, i as int),
                None => !login_taken(users@, login@),
            },
    {
        let wanted = chars_of(login);
        let mut i: usize = 0;
        while i < users.len()
            invariant
                wanted@ == login@,
                i <= users@.len(),
                forall|j: int| 0 <= j < i ==> users@[j].login@ != login@,
            decreases users@.len() - i,
        {
            let have = chars_of(users[i].login.as_str());
            if same_chars(&have, &wanted) {
                return Some(i);
            }
            i += 1;
        }
        None
    }

    /// Whether some user has the login and the password hash.
    pub fn has_credentials(users: &Vec<User>, login: &str, hash: &String) -> (r: bool)
        ensures
            r == credentials_match(users@, login@, hash@),
    {
        let wanted = chars_of(login);
        let mut i: usize = 0;
        while i < users.len()
            invariant
                wanted@ == login@,
                i <= users@.len(),
                forall|j: int|
                    0 <= j < i ==> !(users@[j].login@ == login@ && users@[j].password@ == hash@),
            decreases users@.len() - i,
        {
            let have = chars_of(users[i].login.as_str());
            if same_chars(&have, &wanted) && users[i].password == *hash {
                return true;
            }
            i += 1;
        }
        false
    }

    /// Checks a login and a password against the table at the time `now`
    /// (seconds since the Unix epoch): where a user has that login and the
    /// hash of that password, the session token of the login that expires two
    /// days after `now`; otherwise `None`.
    pub fn login_at(users: &Vec<User>, env: &Env, login: &str, password: &str, now: u64) -> (r:
        Option<String>)
        requires
            now <= u64::MAX - TOKEN_LIFETIME,
            hashable(env, password@),
        ensures
            match r {
                Some(t) => {
                    &&& credentials_match(users@, login@, password_hash(env.salt(), password@))
                    &&& t@ == session_token(login@, (now + TOKEN_LIFETIME) as u64, env.secret())
                },
                None => !credentials_match(users@, login@, password_hash(env.salt(), password@)),
            },
    {
        let hash = match hash_password(password.as_bytes(), env.salt_bytes()) {
            Some(h) => h,
            None => {
                return None;
            },
        };
        if !User::has_credentials(users, login, &hash) {
            return None;
        }
        let login_key_chars = vec!['l', 'o', 'g', 'i', 'n'];
        let exp_key_chars = vec!['e', 'x', 'p'];
        let login_key = string_from_chars(&login_key_chars);
        let exp_key = string_from_chars(&exp_key_chars);
        assert(login_key@ =~= claim_login());
        assert(exp_key@ =~= claim_exp());
        let token = sign_token(
            login_key.as_str(),
            login,
            exp_key.as_str(),
            now + TOKEN_LIFETIME,
            env.secret_bytes(),
        );
        Some(token)
    }

    /// Checks a login and a password against the table at the time the
    /// clock shows: a session token of the login that expires two days
    /// later, exactly where a user has that login and the hash of that
    /// password; otherwise `None`.  A clock set before the Unix epoch counts
    /// as the epoch, and a clock so late that the expiry would not fit in a
    /// `u64` counts as the last time whose expiry fits.
    pub fn login(users: &Vec<User>, env: &Env, login: &str, password: &str) -> (r: Option<String>)
        requires
            hashable(env, password@),
        ensures
            !credentials_match(users@, login@, password_hash(env.salt(), password@)) ==> r is None,
            credentials_match(users@, login@, password_hash(env.salt(), password@)) ==> r is Some,
            r matches Some(t) ==> {
                &&& credentials_match(users@, login@, password_hash(env.salt(), password@))
                &&& exists|now: u64|
                    now <= u64::MAX - TOKEN_LIFETIME && t@ == #[trigger] session_token(
                        login@,
                        (now + TOKEN_LIFETIME) as u64,
                        env.secret(),
                    )
            },
    {
        let now = match unix_time_now() {
            Some(t) => {
                if t <= u64::MAX - TOKEN_LIFETIME {
                    t
                } else {
                    u64::MAX - TOKEN_LIFETIME
                }
            },
            None => 0,
        };
        User::login_at(users, env, login, password, now)
    }

    /// Adds a user with the login, the hash of the password and the scope,
    /// where no user has that login yet.  Returns whether the user was added;
    /// where not, the table is left as it was.
    pub fn create(
        users: &mut Vec<User>,
        env: &Env,
        login: &str,
        password: &str,
        scope: UserScope,
    ) -> (r: bool)
        requires
            !login_taken(old(users)@, login@) ==> hashable(env, password@),
        ensures
            r == !login_taken(old(users)@, login@),
            !r ==> final(users)@ == old(users)@,
            r ==> {
                &&& final(users)@.len() == old(users)@.len() + 1
                &&& final(users)@.drop_last() == old(users)@
                &&& final(users)@.last().login@ == login@
                &&& final(users)@.last().password@ == password_hash(env.salt(), password@)
                &&& final(users)@.last().scope@ == scope@
            },
    {
        if User::position(users, login).is_some() {
            return false;
        }
        let password = match hash_password(password.as_bytes(), env.salt_bytes()) {
            Some(h) => h,
            None => {
                return false;
            },
        };
        let login = login.to_owned();
        let ghost before = users@;
        users.push(User { login, password, scope });
        assert(users@.drop_last() =~= before);
        true
    }

    /// Removes the first user with the login.  Returns whether there was one;
    /// where there was none the table is left as it was.
    pub fn delete(users: &mut Vec<User>, login: &str) -> (r: bool)
        ensures
            r == login_taken(old(users)@, login@),
            final(users)@ == after_remove_login(old(users)@, login@),
    {
        match User::position(users, login) {
            None => false,
            Some(i) => {
                proof {
                    lemma_first_with_login(users@, login@, i as int);
                }
                users.remove(i);
                true
            },
        }
    }
}

/// Adding a user whose login is not taken keeps the logins distinct.
pub proof fn law_create_keeps_logins_distinct(s: Seq<User>, u: User)
    requires
        logins_distinct(s),
        !login_taken(s, u.login@),
    ensures
        logins_distinct(s.push(u)),
{
    assert forall|i: int, j: int| 0 <= i < j < s.len() + 1 implies s.push(u)[i].login@ != s.push(
        u,
    )[j].login@ by {
        if j == s.len() {
            assert(s.push(u)[i] == s[i]);
        } else {
            assert(s.push(u)[i] == s[i]);
            assert(s.push(u)[j] == s[j]);
        }
    }
}

/// Whatever [`User::create`] returns, logins that were distinct stay
/// distinct: either the table is unchanged, or a user with a free login was
/// appended.
pub proof fn law_create_outcome_keeps_logins_distinct(
    before: Seq<User>,
    after: Seq<User>,
    login: Seq<char>,
    added: bool,
)
    requires
        logins_distinct(before),
        added == !login_taken(before, login),
        !added ==> after == before,
        added ==> after.len() == before.len() + 1 && after.drop_last() == before && after.last().login@
            == login,
    ensures
        logins_distinct(after),
{
    if added {
        assert(after =~= before.push(after.last()));
        law_create_keeps_logins_distinct(before, after.last());
    }
}

/// A user that was added with the hash of a password can log in with that
/// login and that password.
pub proof fn law_created_user_can_log_in(s: Seq<User>, u: User, salt: Seq<char>, password: Seq<char>)
    requires
        u.password@ == password_hash(salt, password),
    ensures
        credentials_match(s.push(u), u.login@, password_hash(salt, password)),
{
    assert(s.push(u)[s.len() as int] == u);
}

/// With distinct logins, a password whose hash differs from the stored one
/// does not log in with the login of a user that was just added.
pub proof fn law_wrong_password_cannot_log_in(
    s: Seq<User>,
    u: User,
    salt: Seq<char>,
    password: Seq<char>,
)
    requires
        !login_taken(s, u.login@),
        password_hash(salt, password) != u.password@,
    ensures
        !credentials_match(s.push(u), u.login@, password_hash(salt, password)),
{
    let t = s.push(u);
    if credentials_match(t, u.login@, password_hash(salt, password)) {
        let i = choose|i: int|
            0 <= i < t.len() && t[i].login@ == u.login@ && t[i].password@ == password_hash(
                salt,
                password,
            );
        if i < s.len() {
            assert(t[i] == s[i]);
        }
    }
}

/// Removing a user by a login that is taken removes exactly one user, the
/// first with that login, and keeps every other user in order; removing by
/// a login that is not taken changes nothing.
pub proof fn law_delete_user_removes_one(s: Seq<User>, login: Seq<char>)
    ensures
        !(exists|i: int| 0 <= i < s.len() && s[i].login@ == login) ==> after_remove_login(s, login)
            == s,
        (exists|i: int| 0 <= i < s.len() && s[i].login@ == login) ==> exists|k: int|
            {
                &&& 0 <= k < s.len()
                &&& #[trigger] s[k].login@ == login
                &&& forall|j: int| 0 <= j < k ==> s[j].login@ != login
                &&& after_remove_login(s, login).len() == s.len() - 1
                &&& forall|j: int| 0 <= j < k ==> #[trigger] after_remove_login(s, login)[j] == s[j]
                &&& forall|j: int|
                    k <= j < s.len() - 1 ==> #[trigger] after_remove_login(s, login)[j] == s[j + 1]
            },
{
    if login_taken(s, login) {
        lemma_login_taken_first(s, login);
        let k = first_with_login(s, login);
        assert(s[k].login@ == login);
    }
}

/// Removing a user keeps the logins distinct.
pub proof fn law_delete_keeps_logins_distinct(s: Seq<User>, login: Seq<char>)
    requires
        logins_distinct(s),
    ensures
        logins_distinct(after_remove_login(s, login)),
{
    if login_taken(s, login) {
        lemma_login_taken_first(s, login);
        let k = first_with_login(s, login);
        let t = after_remove_login(s, login);
        assert forall|i: int, j: int| 0 <= i < j < t.len() implies t[i].login@ != t[j].login@ by {
            let i2 = if i < k { i } else { i + 1 };
            let j2 = if j < k { j } else { j + 1 };
            assert(t[i] == s[i2]);
            assert(t[j] == s[j2]);
        }
    }
}

/// Once the user with a login is removed, where logins are distinct, no
/// password logs in with that login any more.
pub proof fn law_deleted_user_cannot_log_in(s: Seq<User>, login: Seq<char>, hash: Seq<char>)
    requires
        logins_distinct(s),
    ensures
        !credentials_match(after_remove_login(s, login), login, hash),
{
    let t = after_remove_login(s, login);
    if login_taken(s, login) {
        lemma_login_taken_first(s, login);
        let k = first_with_login(s, login);
        if credentials_match(t, login, hash) {
            let i = choose|i: int| 0 <= i < t.len() && t[i].login@ == login && t[i].password@ == hash;
            if i < k {
                assert(t[i] == s[i]);
            } else {
                assert(t[i] == s[i + 1]);
            }
        }
    } else {
        if credentials_match(t, login, hash) {
            let i = choose|i: int| 0 <= i < t.len() && t[i].login@ == login && t[i].password@ == hash;
            assert(s[i].login@ == login);
        }
    }
}

} // verus!
