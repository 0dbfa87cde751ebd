//! The configuration of the service: the salt with which passwords are
//! hashed and the secret with which session tokens are signed, both read
//! from the environment.

use vstd::prelude::*;
use vstd::utf8::encode_utf8;
use crate::text::{chars_of, same_chars};

verus! {

/// The validated configuration.  Both values are at least 8 bytes long.
pub struct Env {
    argon2_salt: String,
    jwt_secret: String,
}

/// Why the environment does not configure the service.
#[derive(Clone, Copy, Debug, PartialEq, Eq, Structural)]
pub enum EnvError {
    /// `ARGON2_SALT` or `JWT_SECRET` is unset or empty.
    MissingValue,
    /// `ARGON2_SALT` or `JWT_SECRET` is shorter than 8 bytes.
    TooShort,
}

pub open spec fn salt_var() -> Seq<char> {
    seq!['A', 'R', 'G', 'O', 'N', '2', '_', 'S', 'A', 'L', 'T']
}

pub open spec fn secret_var() -> Seq<char> {
    seq!['J', 'W', 'T', '_', 'S', 'E', 'C', 'R', 'E', 'T']
}

/// The value that the last variable named `key` has in `vars`, or the
/// empty text where there is none.
pub open spec fn last_value(vars: Seq<(String, String)>, key: Seq<char>) -> Seq<char>
    decreases vars.len(),
{
    if vars.len() == 0 {
        Seq::empty()
    } else if vars.last().0@ == key {
        vars.last().1@
    } else {
        last_value(vars.drop_last(), key)
    }
}

/// What the environment `vars` configures: the salt and the secret, where
/// both are set, not empty, and at least 8 bytes long.
pub open spec fn env_outcome(vars: Seq<(String, String)>) -> Result<(Seq<char>, Seq<char>), EnvError> {
    let salt = last_value(vars, salt_var());
    let secret = last_value(vars, secret_var());
    if salt.len() == 0 || secret.len() == 0 {
        Err(EnvError::MissingValue)
    } else if encode_utf8(salt).len() < 8 || encode_utf8(secret).len() < 8 {
        Err(EnvError::TooShort)
    } else {
        Ok((salt, secret))
    }
}

impl Env {
    #[verifier::type_invariant]
    spec fn values_long_enough(self) -> bool {
        &&& encode_utf8(self.argon2_salt@).len() >= 8
        &&& encode_utf8(self.jwt_secret@).len() >= 8
    }

    /// The salt for password hashes.
    pub closed spec fn salt(&self) -> Seq<char> {
        self.argon2_salt@
    }

    /// The secret for session tokens.
    pub closed spec fn secret(&self) -> Seq<char> {
        self.jwt_secret@
    }

    /// The UTF-8 bytes of the salt; there are at least 8.
    pub fn salt_bytes(&self) -> (r: &[u8])
        ensures
            r@ == encode_utf8(self.salt()),
            r@.len() >= 8,
    {
        proof {
            use_type_invariant(self);
        }
        self.argon2_salt.as_str().as_bytes()
    }

    /// The UTF-8 bytes of the secret; there are at least 8.
    pub fn secret_bytes(&self) -> (r: &[u8])
        ensures
            r@ == encode_utf8(self.secret()),
            r@.len() >= 8,
    {
        proof {
            use_type_invariant(self);
        }
        self.jwt_secret.as_str().as_bytes()
    }

    /// The salt for password hashes.
    pub fn argon2_salt(&self) -> (r: &str)
        ensures
            r@ == self.salt(),
    {
        self.argon2_salt.as_str()
    }

    /// The secret for session tokens.
    pub fn jwt_secret(&self) -> (r: &str)
        ensures
            r@ == self.secret(),
    {
        self.jwt_secret.as_str()
    }
}

impl Clone for Env {
    fn clone(&self) -> (r: Env)
        ensures
            r.salt() == self.salt(),
            r.secret() == self.secret(),
    {
        proof {
            use_type_invariant(self);
        }
        Env { argon2_salt: self.argon2_salt.clone(), jwt_secret: self.jwt_secret.clone() }
    }
}

/// Takes the configuration from the environment variables `vars` (name and
/// value, in the order the environment lists them; where a name occurs more
/// than once, the last value counts).  `ARGON2_SALT` and `JWT_SECRET` must
/// both be set, not empty, and at least 8 bytes long.
pub fn validate_env(vars: &Vec<(String, String)>) -> (r: Result<Env, EnvError>)
    ensures
        match (r, env_outcome(vars@)) {
            (Ok(env), Ok((salt, secret))) => env.salt() == salt && env.secret() == secret,
            (Err(e), Err(f)) => e == f,
            _ => false,
        },
{
    let salt_name = vec!['A', 'R', 'G', 'O', 'N', '2', '_', 'S', 'A', 'L', 'T'];
    let secret_name = vec!['J', 'W', 'T', '_', 'S', 'E', 'C', 'R', 'E', 'T'];
    assert(salt_name@ =~= salt_var());
    assert(secret_name@ =~= secret_var());
    let mut argon2_salt = String::new();
    let mut jwt_secret = String::new();
    let mut i: usize = 0;
    while i < vars.len()
        invariant
            salt_name@ == salt_var(),
            secret_name@ == secret_var(),
            i <= vars@.len(),
            argon2_salt@ == last_value(vars@.take(i as int), salt_var()),
            jwt_secret@ == last_value(vars@.take(i as int), secret_var()),
        decreases vars@.len() - i,
    {
        assert(vars@.take(i + 1).drop_last() =~= vars@.take(i as int));
        assert(vars@.take(i + 1).last() == vars@[i as int]);
        let key = chars_of(vars[i].0.as_str());
        if same_chars(&key, &salt_name) {
            argon2_salt = vars[i].1.clone();
        } else if same_chars(&key, &secret_name) {
            jwt_secret = vars[i].1.clone();
        }
        i += 1;
    }
    assert(vars@.take(vars@.len() as int) =~= vars@);
    let salt_chars = chars_of(argon2_salt.as_str());
    let secret_chars = chars_of(jwt_secret.as_str());
    if salt_chars.len() == 0 || secret_chars.len() == 0 {
        return Err(EnvError::MissingValue);
    }
    if argon2_salt.as_str().as_bytes().len() < 8 || jwt_secret.as_str().as_bytes().len() < 8 {
        return Err(EnvError::TooShort);
    }
    Ok(Env { argon2_salt, jwt_secret })
}

} // verus!
