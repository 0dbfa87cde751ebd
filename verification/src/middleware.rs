//! The login check that stands in front of the administration routes:
//! every request but the login itself must carry a valid session token in
//! its `Authorization` header.

use vstd::prelude::*;
use crate::credentials::{sign_token, token_claims};
use crate::env::Env;
use crate::users::{claim_exp, claim_login, session_token};
use crate::credentials::jwt_payload_claims;
use crate::text::{chars_of, same_chars, string_from_chars};

verus! {

/// The factory of the login check.
pub struct CheckLogin;

/// The login check around the inner service `service`.
pub struct CheckLoginMiddleware<S> {
    pub service: S,
}

/// What the login check does with a request.
pub enum Gate {
    /// Pass it on without a token.
    Forward,
    /// Pass it on only where this token is valid.
    CheckToken(String),
    /// Refuse it as unauthorised.
    Refuse,
}

/// The path of the login route, which needs no token.
pub open spec fn login_path() -> Seq<char> {
    seq!['/', 'a', 'p', 'i', '/', 'a', 'd', 'm', 'i', 'n', '/', 'u', 's', 'e', 'r', 's']
}

pub open spec fn bearer_prefix() -> Seq<char> {
    seq!['B', 'e', 'a', 'r', 'e', 'r', ' ']
}

/// `s` with every occurrence of `pat` removed, as `str::replace(pat, "")`
/// does: scanning from the left, each occurrence that starts after the end
/// of the previous one.
pub open spec fn remove_all(s: Seq<char>, pat: Seq<char>) -> Seq<char>
    decreases s.len(),
{
    if s.len() == 0 || pat.len() == 0 {
        s
    } else if pat.len() <= s.len() && s.take(pat.len() as int) == pat {
        remove_all(s.skip(pat.len() as int), pat)
    } else {
        seq![s[0]] + remove_all(s.skip(1), pat)
    }
}

/// The token in an `Authorization` header: the header without `Bearer `.
pub open spec fn bearer_token_text(header: Seq<char>) -> Seq<char> {
    remove_all(header, bearer_prefix())
}

/// Whether a request may pass without a token: a POST to the login route.
pub open spec fn is_open_route(path: Seq<char>, is_post: bool) -> bool {
    path == login_path() && is_post
}

/// Whether `pat` occurs in `s` at position `i`.
fn occurs_at(s: &[char], i: usize, pat: &[char]) -> (r: bool)
    requires
        i <= s@.len(),
    ensures
        r == (pat@.len() <= s@.len() - i && s@.skip(i as int).take(pat@.len() as int) == pat@),
{
    if pat.len() > s.len() - i {
        return false;
    }
    let n = s.len();
    let mut k: usize = 0;
    while k < pat.len()
        invariant
            n == s@.len(),
            i <= s@.len(),
            pat@.len() <= s@.len() - i,
            k <= pat@.len(),
            forall|j: int| 0 <= j < k ==> s@[i + j] == pat@[j],
        decreases pat@.len() - k,
    {
        if s[i + k] != pat[k] {
            assert(s@.skip(i as int).take(pat@.len() as int)[k as int] != pat@[k as int]);
            return false;
        }
        k += 1;
    }
    assert(s@.skip(i as int).take(pat@.len() as int) =~= pat@);
    true
}

/// The token in an `Authorization` header: the header with every
/// `Bearer ` removed.
pub fn bearer_token(header: &str) -> (r: String)
    ensures
        r@ == bearer_token_text(header@),
{
    let s = chars_of(header);
    let pat = vec!['B', 'e', 'a', 'r', 'e', 'r', ' '];
    assert(pat@ =~= bearer_prefix());
    let mut out: Vec<char> = Vec::new();
    let mut i: usize = 0;
    assert(s@.skip(0) =~= s@);
    while i < s.len()
        invariant
            pat@ == bearer_prefix(),
            i <= s@.len(),
            remove_all(s@, pat@) == out@ + remove_all(s@.skip(i as int), pat@),
        decreases s@.len() - i,
    {
        let ghost rest = s@.skip(i as int);
        if occurs_at(&s, i, &pat) {
            assert(rest.skip(7) =~= s@.skip(i + 7));
            i = i + 7;
        } else {
            assert(rest[0] == s@[i as int]);
            assert(rest.skip(1) =~= s@.skip(i + 1));
            let ghost before = out@;
            out.push(s[i]);
            assert(out@ + remove_all(s@.skip(i + 1), pat@) =~= before + (seq![s@[i as int]]
                + remove_all(s@.skip(i + 1), pat@)));
            i = i + 1;
        }
    }
    assert(s@.skip(s@.len() as int) =~= Seq::<char>::empty());
    assert(out@ + Seq::<char>::empty() =~= out@);
    string_from_chars(&out)
}

/// The expiry time of a session token that this service signed with the
/// secret: the `exp` claim, where the token is exactly the session token of
/// its `login` and `exp` claims; `None` for any other text.
pub open spec fn token_expiry(token: Seq<char>, secret: Seq<char>) -> Option<u64> {
    match jwt_payload_claims(token, claim_login(), claim_exp()) {
        Some((login, exp)) => if session_token(login, exp, secret) == token {
            Some(exp)
        } else {
            None
        },
        None => None,
    }
}

/// Whether the session token is valid at the time `now` (seconds since the
/// Unix epoch): a token that this service signed with the configured secret
/// and whose expiry is not before `now`.  A token that a login handed out is
/// valid exactly until it expires.
pub fn verify_token(env: &Env, token: &str, now: u64) -> (r: bool)
    ensures
        r == (token_expiry(token@, env.secret()) matches Some(exp) && now <= exp),
        forall|login: Seq<char>, exp: u64|
            #[trigger] session_token(login, exp, env.secret()) == token@ ==> r == (now <= exp),
{
    let login_key = string_from_chars(&vec!['l', 'o', 'g', 'i', 'n']);
    let exp_key = string_from_chars(&vec!['e', 'x', 'p']);
    assert(login_key@ =~= claim_login());
    assert(exp_key@ =~= claim_exp());
    assert(claim_login() != claim_exp());
    match token_claims(token, login_key.as_str(), exp_key.as_str()) {
        None => false,
        Some((login, exp)) => {
            let expected = sign_token(
                login_key.as_str(),
                login.as_str(),
                exp_key.as_str(),
                exp,
                env.secret_bytes(),
            );
            let expected_chars = chars_of(expected.as_str());
            let token_chars = chars_of(token);
            if !same_chars(&expected_chars, &token_chars) {
                return false;
            }
            now <= exp
        },
    }
}

/// The header's text, where there is a header.
pub open spec fn header_text(authorization: Option<&str>) -> Option<Seq<char>> {
    match authorization {
        Some(h) => Some(h@),
        None => None,
    }
}

/// Whether the login check lets a request through: a POST to the login
/// route always; any other request where it shows a header whose token is
/// valid at the clock reading `now`; never where there is no header or no
/// reading (a clock set before the Unix epoch).
pub open spec fn admission(
    path: Seq<char>,
    is_post: bool,
    header: Option<Seq<char>>,
    secret: Seq<char>,
    now: Option<u64>,
) -> bool {
    if is_open_route(path, is_post) {
        true
    } else {
        match (header, now) {
            (Some(h), Some(n)) => token_expiry(bearer_token_text(h), secret) matches Some(exp) && n
                <= exp,
            _ => false,
        }
    }
}

/// The login check, in terms of the request alone: a POST to the login path
/// passes; every other request passes exactly where it shows a header whose
/// `Bearer` token is a session token that this service signed with the
/// secret and that has not expired at the clock reading `now`, whatever its
/// path and method.
pub proof fn law_admission(
    path: Seq<char>,
    is_post: bool,
    header: Option<Seq<char>>,
    secret: Seq<char>,
    now: Option<u64>,
)
    ensures
        path == login_path() && is_post ==> admission(path, is_post, header, secret, now),
        !(path == login_path() && is_post) ==> (admission(path, is_post, header, secret, now) <==> (
        header is Some && now is Some && exists|login: Seq<char>, exp: u64|
            #![trigger session_token(login, exp, secret)]
            jwt_payload_claims(bearer_token_text(header.unwrap()), claim_login(), claim_exp()) == Some(
                (login, exp),
            ) && session_token(login, exp, secret) == bearer_token_text(header.unwrap()) && now.unwrap()
                <= exp)),
{
    if !(path == login_path() && is_post) && header is Some && now is Some {
        let t = bearer_token_text(header.unwrap());
        if let Some((login, exp)) = jwt_payload_claims(t, claim_login(), claim_exp()) {
            if session_token(login, exp, secret) == t && now.unwrap() <= exp {
                assert(admission(path, is_post, header, secret, now));
            }
        }
    }
}

/// Text without a space holds no `Bearer `, so nothing is removed from it.
pub proof fn lemma_remove_bearer_no_space(t: Seq<char>)
    requires
        forall|i: int| 0 <= i < t.len() ==> t[i] != ' ',
    ensures
        remove_all(t, bearer_prefix()) == t,
    decreases t.len(),
{
    if t.len() > 0 {
        if 7 <= t.len() {
            assert(t.take(7)[6] != bearer_prefix()[6]);
        }
        lemma_remove_bearer_no_space(t.skip(1));
        assert(seq![t[0]] + t.skip(1) =~= t);
    }
}

/// The token in a header made of `Bearer ` and a token without spaces (as
/// the session tokens are) is that token.
pub proof fn law_bearer_header_gives_token(token: Seq<char>)
    requires
        forall|i: int| 0 <= i < token.len() ==> token[i] != ' ',
    ensures
        bearer_token_text(bearer_prefix() + token) == token,
{
    let h = bearer_prefix() + token;
    assert(h.take(7) =~= bearer_prefix());
    assert(h.skip(7) =~= token);
    lemma_remove_bearer_no_space(token);
}

impl CheckLogin {
    /// Puts the login check around a service.
    pub fn new_transform<S>(&self, service: S) -> (r: CheckLoginMiddleware<S>)
        ensures
            r.service == service,
    {
        CheckLoginMiddleware { service }
    }
}

impl<S> CheckLoginMiddleware<S> {
    /// What the check does with a request to `path` (`is_post` for the POST
    /// method) whose `Authorization` header is `authorization`: a POST to the
    /// login route passes; any other request with the header passes where
    /// the token in it is valid; a request without the header is refused.
    pub fn gate(&self, path: &str, is_post: bool, authorization: Option<&str>) -> (r: Gate)
        ensures
            match r {
                Gate::Forward => is_open_route(path@, is_post),
                Gate::CheckToken(t) => {
                    &&& !is_open_route(path@, is_post)
                    &&& authorization matches Some(h) && t@ == bearer_token_text(h@)
                },
                Gate::Refuse => !is_open_route(path@, is_post) && authorization is None,
            },
    {
        let p = chars_of(path);
        let login_route = vec![
            '/', 'a', 'p', 'i', '/', 'a', 'd', 'm', 'i', 'n', '/', 'u', 's', 'e', 'r', 's',
        ];
        assert(login_route@ =~= login_path());
        if same_chars(&p, &login_route) && is_post {
            return Gate::Forward;
        }
        match authorization {
            Some(h) => Gate::CheckToken(bearer_token(h)),
            None => Gate::Refuse,
        }
    }

    /// Whether a request to `path` needs no token: a POST to the login route.
    pub fn is_open(&self, path: &str, is_post: bool) -> (r: bool)
        ensures
            r == is_open_route(path@, is_post),
    {
        let p = chars_of(path);
        let login_route = vec![
            '/', 'a', 'p', 'i', '/', 'a', 'd', 'm', 'i', 'n', '/', 'u', 's', 'e', 'r', 's',
        ];
        assert(login_route@ =~= login_path());
        same_chars(&p, &login_route) && is_post
    }

    /// Whether the request passes the check, where `now` is the clock
    /// reading (from [`unix_time_now`](crate::credentials::unix_time_now)):
    /// see [`admission`].
    pub fn admits(
        &self,
        env: &Env,
        path: &str,
        is_post: bool,
        authorization: Option<&str>,
        now: Option<u64>,
    ) -> (r: bool)
        ensures
            r == admission(path@, is_post, header_text(authorization), env.secret(), now),
    {
        match self.gate(path, is_post, authorization) {
            Gate::Forward => true,
            Gate::CheckToken(t) => match now {
                Some(n) => verify_token(env, t.as_str(), n),
                None => false,
            },
            Gate::Refuse => false,
        }
    }
}

} // verus!
