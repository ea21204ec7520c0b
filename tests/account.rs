use trivia::account::{config, register, register_with_salt, salt, verify, AdminError, Credentials, Error, HashVariant};
use trivia::models::Admin;

fn stored(name: &str, hash: String) -> Admin {
    Admin { id: 1, name: name.to_string(), password: hash }
}

#[test]
fn registration() {
    let credentials = Credentials {
        name: "George".to_string(),
        password: "please don't hack me :)".to_string(),
    };

    let hash = register(&credentials, None, &config()).unwrap();
    let admin = stored("George", hash);
    let verified = verify(&credentials, Some(&admin)).unwrap();

    assert!(verified)
}

#[test]
fn wrong_password_is_refused() {
    let credentials = Credentials { name: "Ann".to_string(), password: "right".to_string() };
    let hash = register_with_salt(&credentials, None, &config(), "some fine salt").unwrap();
    assert!(hash.starts_with("$argon2id$"));
    let admin = stored("Ann", hash);
    let wrong = Credentials { name: "Ann".to_string(), password: "wrong".to_string() };
    assert!(!verify(&wrong, Some(&admin)).unwrap());
}

#[test]
fn unknown_admin_is_refused() {
    let credentials = Credentials { name: "Nobody".to_string(), password: "x".to_string() };
    assert!(!verify(&credentials, None).unwrap());
}

#[test]
fn unreadable_hash_is_hash_error() {
    let credentials = Credentials { name: "Ann".to_string(), password: "x".to_string() };
    let admin = stored("Ann", "not a hash".to_string());
    assert!(matches!(verify(&credentials, Some(&admin)), Err(Error::Hash(_))));
}

#[test]
fn taken_name_is_name_in_use() {
    let credentials = Credentials { name: "Ann".to_string(), password: "x".to_string() };
    let existing = stored("Ann", "whatever".to_string());
    let r = register_with_salt(&credentials, Some(&existing), &config(), "some fine salt");
    assert!(matches!(r, Err(Error::Insert(AdminError::NameInUse))));
}

#[test]
fn short_salt_is_hash_error() {
    let credentials = Credentials { name: "Ann".to_string(), password: "x".to_string() };
    let r = register_with_salt(&credentials, None, &config(), "short");
    assert!(matches!(r, Err(Error::Hash(_))));
}

#[test]
fn salt_is_long_and_has_no_zero() {
    let s = salt();
    assert_eq!(s.chars().count(), 128);
    assert!(s.chars().all(|c| (1..=255).contains(&(c as u32))));
}

#[test]
fn settings_are_argon2id() {
    let c = config();
    assert_eq!(c.hash_length, 256);
    assert_eq!(c.time_cost, 10);
    assert_eq!(c.variant, HashVariant::Argon2id);
}
