//! User registration, login and the request field constraints.

use questionnaire_core::error::AppError;
use questionnaire_core::store::Store;
use questionnaire_core::user::{CreateUserRequest, LoginRequest};

fn registration(username: &str, password: &str, email: Option<&str>) -> CreateUserRequest {
    CreateUserRequest {
        username: username.to_string(),
        nickname: format!("{} nick", username),
        password: password.to_string(),
        email: email.map(|s| s.to_string()),
    }
}

#[test]
fn register_and_login_roundtrip() {
    let mut store = Store::new();
    let created = store.create_user(&registration("alice", "correct horse", None), 0).unwrap();
    assert_eq!(created.username, "alice");

    let ok = store
        .login(&LoginRequest { username: "alice".to_string(), password: "correct horse".to_string() })
        .unwrap();
    assert_eq!(ok.id, created.id);
    assert_eq!(ok.username, "alice");

    let wrong = store
        .login(&LoginRequest { username: "alice".to_string(), password: "wrong pass".to_string() })
        .unwrap_err();
    assert_eq!(wrong, AppError::Auth);

    let unknown = store
        .login(&LoginRequest { username: "nobody".to_string(), password: "whatever".to_string() })
        .unwrap_err();
    assert_eq!(unknown, AppError::Auth);
}

#[test]
fn duplicate_username_is_rejected() {
    let mut store = Store::new();
    store.create_user(&registration("bob", "password-one", None), 0).unwrap();
    let err = store.create_user(&registration("bob", "password-two", None), 1).unwrap_err();
    assert_eq!(err, AppError::Validation);
    assert_eq!(store.users.len(), 1);
}

#[test]
fn stored_hash_is_not_the_password() {
    let mut store = Store::new();
    store.create_user(&registration("carla", "plain secret", None), 0).unwrap();
    assert_ne!(store.users[0].password_hash, "plain secret");
    assert!(!store.users[0].password_hash.is_empty());
}

#[test]
fn get_user_lookups() {
    let mut store = Store::new();
    let created = store.create_user(&registration("dora", "some password", Some("dora@example.com")), 0).unwrap();
    let got = store.get_user_response_by_id(created.id).unwrap();
    assert_eq!(got.username, "dora");
    assert_eq!(got.email.as_deref(), Some("dora@example.com"));
    assert_eq!(store.get_user_by_id(999).unwrap_err(), AppError::NotFound);
}

#[test]
fn registration_field_constraints() {
    // Username of 3 to 20, nickname of 1 to 50, password of at least 6.
    assert!(registration("abc", "secret", None).validate().is_ok());
    assert_eq!(
        registration("ab", "secret", None).validate().unwrap_err(),
        AppError::Validation
    );
    assert_eq!(
        registration("abcdefghijklmnopqrstu", "secret", None).validate().unwrap_err(),
        AppError::Validation
    );
    assert_eq!(
        registration("abc", "tiny", None).validate().unwrap_err(),
        AppError::Validation
    );
    let no_nickname = CreateUserRequest {
        username: "abc".to_string(),
        nickname: String::new(),
        password: "secret".to_string(),
        email: None,
    };
    assert_eq!(no_nickname.validate().unwrap_err(), AppError::Validation);
}

#[test]
fn registration_email_constraint() {
    assert!(registration("erik", "secret", Some("erik@example.com")).validate().is_ok());
    assert_eq!(
        registration("erik", "secret", Some("not an email")).validate().unwrap_err(),
        AppError::Validation
    );
    // An absent email is acceptable.
    assert!(registration("erik", "secret", None).validate().is_ok());
}

#[test]
fn login_field_constraints() {
    let ok = LoginRequest { username: "abc".to_string(), password: "secret".to_string() };
    assert!(ok.validate().is_ok());
    let short = LoginRequest { username: "ab".to_string(), password: "secret".to_string() };
    assert_eq!(short.validate().unwrap_err(), AppError::Validation);
    let tiny = LoginRequest { username: "abc".to_string(), password: "tiny".to_string() };
    assert_eq!(tiny.validate().unwrap_err(), AppError::Validation);
}
