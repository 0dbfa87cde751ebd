use admin_api::env::{validate_env, Env};
use admin_api::credentials::unix_time_now;
use admin_api::middleware::{bearer_token, verify_token, CheckLogin, Gate};
use admin_api::scope::UserScope;
use admin_api::users::User;

fn env() -> Env {
    let vars = vec![
        ("ARGON2_SALT".to_string(), "somesaltvalue".to_string()),
        ("JWT_SECRET".to_string(), "jwtsecretvalue".to_string()),
    ];
    validate_env(&vars).unwrap()
}

#[test]
fn bearer_prefix_is_removed() {
    assert_eq!(bearer_token("Bearer abc.def"), "abc.def");
    assert_eq!(bearer_token("abc"), "abc");
    assert_eq!(bearer_token(""), "");
}

#[test]
fn every_bearer_is_removed() {
    assert_eq!(bearer_token("Bearer Bearer x"), "x");
    assert_eq!(bearer_token("xBearer y"), "xy");
    assert_eq!(bearer_token("BearerBearer  z"), "Bearer z");
    assert_eq!(bearer_token("bearer x"), "bearer x");
}

#[test]
fn new_transform_wraps_service() {
    let m = CheckLogin.new_transform(7u32);
    assert_eq!(m.service, 7);
}

#[test]
fn login_route_passes_without_token() {
    let m = CheckLogin.new_transform(());
    assert!(matches!(m.gate("/api/admin/users", true, None), Gate::Forward));
    assert!(m.admits(&env(), "/api/admin/users", true, None, None));
    assert!(m.is_open("/api/admin/users", true));
    assert!(!m.is_open("/api/admin/users", false));
    assert!(!m.is_open("/api/admin/projects", true));
}

#[test]
fn other_requests_need_header() {
    let m = CheckLogin.new_transform(());
    assert!(matches!(m.gate("/api/admin/users", false, None), Gate::Refuse));
    assert!(matches!(m.gate("/api/admin/projects", true, None), Gate::Refuse));
    assert!(!m.admits(&env(), "/api/admin/projects", false, None, Some(0)));
    match m.gate("/api/admin/projects", false, Some("Bearer tok")) {
        Gate::CheckToken(t) => assert_eq!(t, "tok"),
        _ => panic!("expected a token check"),
    }
}

#[test]
fn issued_token_is_admitted() {
    let env = env();
    let mut users = vec![];
    User::create(&mut users, &env, "admin", "pw", UserScope::All);
    let token = User::login(&users, &env, "admin", "pw").unwrap();
    let header = format!("Bearer {}", token);
    let m = CheckLogin.new_transform(());
    let now = unix_time_now();
    assert!(m.admits(&env, "/api/admin/projects", false, Some(&header), now));
    assert!(verify_token(&env, &token, now.unwrap()));
    assert!(!m.admits(&env, "/api/admin/projects", false, Some(&header), None));
}

#[test]
fn bad_or_expired_token_is_refused() {
    let env = env();
    let mut users = vec![];
    User::create(&mut users, &env, "admin", "pw", UserScope::All);
    let expired = User::login_at(&users, &env, "admin", "pw", 0).unwrap();
    let now = unix_time_now().unwrap();
    assert!(!verify_token(&env, &expired, now));
    assert!(!verify_token(&env, "garbage", now));
    let other = validate_env(&vec![
        ("ARGON2_SALT".to_string(), "somesaltvalue".to_string()),
        ("JWT_SECRET".to_string(), "anothersecret".to_string()),
    ])
    .unwrap();
    let token = User::login(&users, &env, "admin", "pw").unwrap();
    assert!(!verify_token(&other, &token, now));
    let m = CheckLogin.new_transform(());
    assert!(!m.admits(&env, "/api/admin/projects", false, Some("Bearer garbage"), Some(now)));
}

#[test]
fn issued_token_is_valid_until_it_expires() {
    let env = env();
    let mut users = vec![];
    User::create(&mut users, &env, "admin", "pw", UserScope::All);
    let token = User::login_at(&users, &env, "admin", "pw", 1000).unwrap();
    assert!(verify_token(&env, &token, 0));
    assert!(verify_token(&env, &token, 1000));
    assert!(verify_token(&env, &token, 1000 + 172800));
    assert!(!verify_token(&env, &token, 1000 + 172801));
}

#[test]
fn altered_or_foreign_token_is_invalid() {
    let env = env();
    let mut users = vec![];
    User::create(&mut users, &env, "admin", "pw", UserScope::All);
    let token = User::login_at(&users, &env, "admin", "pw", 1000).unwrap();
    let mut altered = token.clone();
    altered.push('x');
    assert!(!verify_token(&env, &altered, 0));
    assert!(!verify_token(&env, "a.b.c", 0));
    assert!(!verify_token(&env, "", 0));
    let mut m = serde_json::Map::new();
    m.insert("login".to_string(), serde_json::Value::from("admin"));
    m.insert("exp".to_string(), serde_json::Value::from(1172800u64));
    let foreign = jsonwebtoken::encode(
        &jsonwebtoken::Header::default(),
        &m,
        &jsonwebtoken::EncodingKey::from_secret(b"someothersecret"),
    )
    .unwrap();
    assert!(!verify_token(&env, &foreign, 0));
}
