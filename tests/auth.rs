use chat_server::auth::{check_username, AuthError, AuthManager};

fn manager() -> AuthManager {
    AuthManager::with_cost("users.json", 4)
}

#[test]
fn register_then_login_succeeds() {
    let mut m = manager();
    let user = m.register("alice", "password1").unwrap();
    assert_eq!(user.name, "alice");
    let again = m.login("alice", "password1").unwrap();
    assert_eq!(again.name, "alice");
}

#[test]
fn register_existing_user_fails_and_keeps_hash() {
    let mut m = manager();
    m.register("bob", "password1").unwrap();
    let stored = m.users()[0].1.clone();
    assert_eq!(m.register("bob", "otherpassword").err(), Some(AuthError::UserExists));
    assert_eq!(m.users().len(), 1);
    assert_eq!(m.users()[0].1, stored);
    assert!(m.login("bob", "password1").is_ok());
    assert_eq!(m.login("bob", "otherpassword").err(), Some(AuthError::InvalidPassword));
}

#[test]
fn stored_hash_is_not_the_password() {
    let mut m = manager();
    m.register("carol", "password1").unwrap();
    assert_eq!(m.users()[0].0, "carol");
    assert_ne!(m.users()[0].1, "password1");
    assert!(m.users()[0].1.starts_with("$2"));
}

#[test]
fn login_unknown_user() {
    let m = manager();
    assert_eq!(m.login("nobody", "password1").err(), Some(AuthError::UserNotFound));
}

#[test]
fn login_with_malformed_stored_hash() {
    let mut m = manager();
    assert!(m.restore_user("dave".to_string(), "not-a-hash".to_string()));
    assert_eq!(m.login("dave", "password1").err(), Some(AuthError::VerifyFailed));
}

#[test]
fn restore_user_keeps_first() {
    let mut m = manager();
    assert!(m.restore_user("erin".to_string(), "h1".to_string()));
    assert!(!m.restore_user("erin".to_string(), "h2".to_string()));
    assert_eq!(m.users().len(), 1);
    assert_eq!(m.users()[0].1, "h1");
}

#[test]
fn validation_errors_in_order() {
    let mut m = manager();
    assert_eq!(m.register("", "password1").err(), Some(AuthError::EmptyField));
    assert_eq!(m.register("alice", "").err(), Some(AuthError::EmptyField));
    let long = "a".repeat(33);
    assert_eq!(m.register(&long, "password1").err(), Some(AuthError::UsernameTooLong));
    assert!(m.register(&"a".repeat(32), "password1").is_ok());
    assert_eq!(m.register("bad name", "password1").err(), Some(AuthError::InvalidUsernameFormat));
    assert_eq!(m.register("bad!", "x").err(), Some(AuthError::InvalidUsernameFormat));
    assert_eq!(m.register("frank", "short").err(), Some(AuthError::PasswordTooShort));
    assert_eq!(m.register("frank", &"p".repeat(129)).err(), Some(AuthError::PasswordTooLong));
    assert!(m.register("frank", &"p".repeat(128)).is_ok());
    assert_eq!(m.login("bad name", "password1").err(), Some(AuthError::InvalidUsernameFormat));
    assert_eq!(m.login("frank", "short").err(), Some(AuthError::PasswordTooShort));
}

#[test]
fn empty_field_comes_before_every_other_rule() {
    let mut m = manager();
    let long = "a".repeat(33);
    assert_eq!(m.register(&long, "").err(), Some(AuthError::EmptyField));
    assert_eq!(m.register("bad name", "").err(), Some(AuthError::EmptyField));
    assert_eq!(m.register("", "short").err(), Some(AuthError::EmptyField));
    assert_eq!(m.login(&long, "").err(), Some(AuthError::EmptyField));
    assert_eq!(m.login("bad!", "").err(), Some(AuthError::EmptyField));
    assert_eq!(m.validate_credentials("bad!", ""), Err(AuthError::EmptyField));
    assert_eq!(m.validate_credentials("bad!", "password1"), Err(AuthError::InvalidUsernameFormat));
    assert_eq!(m.validate_credentials("alice", "short"), Err(AuthError::PasswordTooShort));
    assert_eq!(m.validate_credentials("alice", "password1"), Ok(()));
    assert!(m.users().is_empty());
}

#[test]
fn username_pattern_accepts_letters_digits_underscore_hyphen() {
    let m = manager();
    assert_eq!(m.validate_username("Good_name-42"), Ok(()));
    assert_eq!(m.validate_username("naïve"), Err(AuthError::InvalidUsernameFormat));
    assert_eq!(m.validate_username("a.b"), Err(AuthError::InvalidUsernameFormat));
    assert_eq!(m.validate_username("alice\n"), Err(AuthError::InvalidUsernameFormat));
    assert_eq!(m.validate_username("-_-"), Ok(()));
}

#[test]
fn password_length_counts_bytes() {
    let m = manager();
    assert_eq!(m.validate_password("ééé"), Err(AuthError::PasswordTooShort));
    assert_eq!(m.validate_password("éééé"), Ok(()));
    assert_eq!(m.validate_password("1234567"), Err(AuthError::PasswordTooShort));
    assert_eq!(m.validate_password("12345678"), Ok(()));
}

#[test]
fn check_username_rules() {
    assert_eq!(check_username("", true), Err(AuthError::EmptyField));
    assert_eq!(check_username(&"x".repeat(33), true), Err(AuthError::UsernameTooLong));
    assert_eq!(check_username(&"é".repeat(17), true), Err(AuthError::UsernameTooLong));
    assert_eq!(check_username("alice", false), Err(AuthError::InvalidUsernameFormat));
    assert_eq!(check_username("alice", true), Ok(()));
}

#[test]
fn error_messages() {
    assert_eq!(AuthError::UserExists.message(), "Username already exists");
    assert_eq!(AuthError::InvalidPassword.message(), "Invalid password");
    assert_eq!(AuthError::UserNotFound.message(), "Username not found");
}

#[test]
fn default_manager_is_empty() {
    let m = AuthManager::new("users.json");
    assert_eq!(m.users().len(), 0);
    assert_eq!(m.file_path(), "users.json");
}
