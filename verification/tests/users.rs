use admin_api::env::{validate_env, Env};
use admin_api::reply::Reply;
use admin_api::scope::UserScope;
use admin_api::user_routes::{self, CreateData, LoginData, UserDeleteData};
use admin_api::users::{User, TOKEN_LIFETIME};

fn env() -> Env {
    let vars = vec![
        ("ARGON2_SALT".to_string(), "somesaltvalue".to_string()),
        ("JWT_SECRET".to_string(), "jwtsecretvalue".to_string()),
    ];
    validate_env(&vars).unwrap()
}

fn claims(token: &str, secret: &str) -> serde_json::Map<String, serde_json::Value> {
    let mut validation = jsonwebtoken::Validation::default();
    validation.validate_exp = false;
    jsonwebtoken::decode::<serde_json::Map<String, serde_json::Value>>(
        token,
        &jsonwebtoken::DecodingKey::from_secret(secret.as_bytes()),
        &validation,
    )
    .unwrap()
    .claims
}

#[test]
fn create_stores_argon2_hash() {
    let env = env();
    let mut users = vec![];
    assert!(User::create(&mut users, &env, "admin", "hunter2", UserScope::ReadAll));
    assert_eq!(users.len(), 1);
    assert_eq!(users[0].login, "admin");
    let expected = argon2::hash_encoded(b"hunter2", b"somesaltvalue", &argon2::Config::default()).unwrap();
    assert_eq!(users[0].password, expected);
    assert_ne!(users[0].password, "hunter2");
    assert!(matches!(users[0].scope, UserScope::ReadAll));
}

#[test]
fn create_refuses_taken_login() {
    let env = env();
    let mut users = vec![];
    assert!(User::create(&mut users, &env, "admin", "one", UserScope::All));
    assert!(!User::create(&mut users, &env, "admin", "two", UserScope::All));
    assert_eq!(users.len(), 1);
    assert!(User::create(&mut users, &env, "Admin", "two", UserScope::All));
    assert_eq!(users.len(), 2);
}

#[test]
fn created_user_logs_in_with_token() {
    let env = env();
    let mut users = vec![];
    User::create(&mut users, &env, "admin", "hunter2", UserScope::All);
    let token = User::login_at(&users, &env, "admin", "hunter2", 1000).unwrap();
    let c = claims(&token, "jwtsecretvalue");
    assert_eq!(c.get("login"), Some(&serde_json::Value::from("admin")));
    assert_eq!(c.get("exp"), Some(&serde_json::Value::from(1000 + 172800u64)));
    assert_eq!(c.len(), 2);
    assert_eq!(TOKEN_LIFETIME, 3600 * 24 * 2);
}

#[test]
fn token_is_the_signed_claims() {
    let env = env();
    let mut users = vec![];
    User::create(&mut users, &env, "admin", "pw", UserScope::All);
    let token = User::login_at(&users, &env, "admin", "pw", 5).unwrap();
    let mut m = serde_json::Map::new();
    m.insert("login".to_string(), serde_json::Value::from("admin"));
    m.insert("exp".to_string(), serde_json::Value::from(5 + 172800u64));
    let expected = jsonwebtoken::encode(
        &jsonwebtoken::Header::default(),
        &m,
        &jsonwebtoken::EncodingKey::from_secret(b"jwtsecretvalue"),
    )
    .unwrap();
    assert_eq!(token, expected);
}

#[test]
fn wrong_password_or_login_fails() {
    let env = env();
    let mut users = vec![];
    User::create(&mut users, &env, "admin", "hunter2", UserScope::All);
    assert!(User::login_at(&users, &env, "admin", "hunter3", 1000).is_none());
    assert!(User::login_at(&users, &env, "root", "hunter2", 1000).is_none());
    assert!(User::login_at(&vec![], &env, "admin", "hunter2", 1000).is_none());
}

#[test]
fn login_uses_the_clock() {
    let env = env();
    let mut users = vec![];
    User::create(&mut users, &env, "admin", "hunter2", UserScope::All);
    let now = std::time::SystemTime::now().duration_since(std::time::UNIX_EPOCH).unwrap().as_secs();
    let token = User::login(&users, &env, "admin", "hunter2").unwrap();
    let exp = claims(&token, "jwtsecretvalue").get("exp").unwrap().as_u64().unwrap();
    assert!(exp >= now + 172800 && exp <= now + 172800 + 60);
    assert!(User::login(&users, &env, "admin", "wrong").is_none());
}

#[test]
fn deleted_user_cannot_log_in() {
    let env = env();
    let mut users = vec![];
    User::create(&mut users, &env, "a", "pa", UserScope::All);
    User::create(&mut users, &env, "b", "pb", UserScope::All);
    assert!(User::delete(&mut users, "a"));
    assert!(User::login_at(&users, &env, "a", "pa", 0).is_none());
    assert!(User::login_at(&users, &env, "b", "pb", 0).is_some());
    assert!(!User::delete(&mut users, "a"));
    assert_eq!(users.len(), 1);
}

#[test]
fn route_create_answers() {
    let env = env();
    let mut users = vec![];
    let data = CreateData {
        login: "admin".to_string(),
        password: "pw".to_string(),
        scope: "read_all".to_string(),
    };
    assert_eq!(user_routes::create(&mut users, &env, &data), Reply::Success);
    assert!(matches!(users[0].scope, UserScope::ReadAll));
    assert_eq!(user_routes::create(&mut users, &env, &data), Reply::Conflict);
    let bad = CreateData { login: "other".to_string(), password: "pw".to_string(), scope: "admin".to_string() };
    assert_eq!(user_routes::create(&mut users, &env, &bad), Reply::BadRequest);
    assert_eq!(users.len(), 1);
}

#[test]
fn route_list_shows_login_and_scope_text() {
    let env = env();
    let mut users = vec![];
    User::create(&mut users, &env, "a", "pa", UserScope::All);
    User::create(&mut users, &env, "b", "pb", UserScope::Read(vec![42]));
    let shown = user_routes::list(&users);
    assert_eq!(shown.len(), 2);
    assert_eq!(shown[0].login, "a");
    assert_eq!(shown[0].scope, "all");
    assert_eq!(shown[1].login, "b");
    assert_eq!(shown[1].scope, "read:00000000-0000-0000-0000-00000000002a");
}

#[test]
fn route_delete_answers() {
    let env = env();
    let mut users = vec![];
    User::create(&mut users, &env, "a", "pa", UserScope::All);
    let data = UserDeleteData { login: "a".to_string() };
    assert_eq!(user_routes::delete(&mut users, &data), Reply::Success);
    assert_eq!(user_routes::delete(&mut users, &data), Reply::BadRequest);
    assert!(users.is_empty());
}

#[test]
fn route_login_answers() {
    let env = env();
    let mut users = vec![];
    User::create(&mut users, &env, "admin", "pw", UserScope::All);
    let good = LoginData { login: "admin".to_string(), password: "pw".to_string() };
    let token = user_routes::login(&users, &env, &good).unwrap();
    assert_eq!(claims(&token, "jwtsecretvalue").get("login"), Some(&serde_json::Value::from("admin")));
    let bad = LoginData { login: "admin".to_string(), password: "px".to_string() };
    assert_eq!(user_routes::login(&users, &env, &bad).err(), Some(Reply::Unauthorized));
}

#[test]
fn route_create_keeps_requested_read_scope() {
    let env = env();
    let mut users = vec![];
    let data = CreateData {
        login: "reader".to_string(),
        password: "pw".to_string(),
        scope: "read:00000000-0000-0000-0000-00000000002a".to_string(),
    };
    assert_eq!(user_routes::create(&mut users, &env, &data), Reply::Success);
    match &users[0].scope {
        UserScope::Read(v) => assert_eq!(v, &vec![42u128]),
        _ => panic!("expected a read scope"),
    }
}

#[test]
fn token_payload_is_login_then_exp() {
    let env = env();
    let mut users = vec![];
    User::create(&mut users, &env, "admin", "pw", UserScope::All);
    let token = User::login_at(&users, &env, "admin", "pw", 5).unwrap();
    let payload: serde_json::Value = serde_json::from_str(r#"{"login":"admin","exp":172805}"#).unwrap();
    let expected = jsonwebtoken::encode(
        &jsonwebtoken::Header::default(),
        &payload,
        &jsonwebtoken::EncodingKey::from_secret(b"jwtsecretvalue"),
    )
    .unwrap();
    assert_eq!(token, expected);
}

#[test]
fn wrong_password_of_new_user_fails() {
    let env = env();
    let mut users = vec![];
    User::create(&mut users, &env, "a", "right", UserScope::All);
    assert!(User::login_at(&users, &env, "a", "right", 0).is_some());
    assert!(User::login_at(&users, &env, "a", "wrong", 0).is_none());
}
