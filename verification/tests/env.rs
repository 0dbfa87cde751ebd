use admin_api::env::{validate_env, EnvError};

fn vars(list: &[(&str, &str)]) -> Vec<(String, String)> {
    list.iter().map(|(k, v)| (k.to_string(), v.to_string())).collect()
}

#[test]
fn both_values_set() {
    let env = validate_env(&vars(&[("PATH", "/bin"), ("ARGON2_SALT", "saltsalt"), ("JWT_SECRET", "secret99")]))
        .unwrap();
    assert_eq!(env.argon2_salt(), "saltsalt");
    assert_eq!(env.jwt_secret(), "secret99");
}

#[test]
fn missing_salt() {
    let r = validate_env(&vars(&[("JWT_SECRET", "secret99")]));
    assert_eq!(r.err(), Some(EnvError::MissingValue));
}

#[test]
fn empty_secret() {
    let r = validate_env(&vars(&[("ARGON2_SALT", "saltsalt"), ("JWT_SECRET", "")]));
    assert_eq!(r.err(), Some(EnvError::MissingValue));
}

#[test]
fn short_value() {
    let r = validate_env(&vars(&[("ARGON2_SALT", "short"), ("JWT_SECRET", "secret99")]));
    assert_eq!(r.err(), Some(EnvError::TooShort));
}

#[test]
fn missing_wins_over_short() {
    let r = validate_env(&vars(&[("ARGON2_SALT", "short")]));
    assert_eq!(r.err(), Some(EnvError::MissingValue));
}

#[test]
fn length_counts_bytes() {
    let r = validate_env(&vars(&[("ARGON2_SALT", "\u{e9}\u{e9}\u{e9}\u{e9}"), ("JWT_SECRET", "secret99")]));
    assert_eq!(r.unwrap().argon2_salt(), "\u{e9}\u{e9}\u{e9}\u{e9}");
    let r = validate_env(&vars(&[("ARGON2_SALT", "\u{e9}\u{e9}\u{e9}"), ("JWT_SECRET", "secret99")]));
    assert_eq!(r.err(), Some(EnvError::TooShort));
}

#[test]
fn last_value_counts() {
    let env = validate_env(&vars(&[
        ("ARGON2_SALT", "firstsalt"),
        ("JWT_SECRET", "secret99"),
        ("ARGON2_SALT", "secondsalt"),
    ]))
    .unwrap();
    assert_eq!(env.argon2_salt(), "secondsalt");
    let r = validate_env(&vars(&[("ARGON2_SALT", "firstsalt"), ("JWT_SECRET", "secret99"), ("ARGON2_SALT", "")]));
    assert_eq!(r.err(), Some(EnvError::MissingValue));
}

#[test]
fn names_are_case_sensitive() {
    let r = validate_env(&vars(&[("argon2_salt", "saltsalt"), ("JWT_SECRET", "secret99")]));
    assert_eq!(r.err(), Some(EnvError::MissingValue));
}

#[test]
fn clone_keeps_values() {
    let env = validate_env(&vars(&[("ARGON2_SALT", "saltsalt"), ("JWT_SECRET", "secret99")])).unwrap();
    let copy = env.clone();
    assert_eq!(copy.argon2_salt(), "saltsalt");
    assert_eq!(copy.jwt_secret(), "secret99");
}
