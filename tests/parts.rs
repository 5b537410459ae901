use community_auth::config::{parse_duration, ConfigError};
use community_auth::error::{AppError, FieldIssue};
use community_auth::ids::expires_at;
use community_auth::models::OrderDirection;
use community_auth::password::{hash_password, verify_password};
use community_auth::store::{CredentialRecord, CredentialStore, StoreError};
use community_auth::validation::validate_registration;

#[test]
fn parse_duration_reads_minutes() {
    assert_eq!(parse_duration("5"), Ok(300));
    assert_eq!(parse_duration("+2"), Ok(120));
    assert_eq!(parse_duration("0"), Ok(0));
    assert_eq!(parse_duration("307445734561825860"), Ok(18446744073709551600));
}

#[test]
fn parse_duration_refuses_non_numbers() {
    assert_eq!(parse_duration(""), Err(ConfigError::NotANumber));
    assert_eq!(parse_duration("+"), Err(ConfigError::NotANumber));
    assert_eq!(parse_duration("-1"), Err(ConfigError::NotANumber));
    assert_eq!(parse_duration("12a"), Err(ConfigError::NotANumber));
    assert_eq!(parse_duration(" 1"), Err(ConfigError::NotANumber));
    assert_eq!(parse_duration("18446744073709551616"), Err(ConfigError::NotANumber));
}

#[test]
fn parse_duration_refuses_overflowing_durations() {
    assert_eq!(parse_duration("307445734561825861"), Err(ConfigError::DurationTooLong));
    assert_eq!(parse_duration("18446744073709551615"), Err(ConfigError::DurationTooLong));
}

fn rec(id: u128, user_id: u128, expiration: i64) -> CredentialRecord {
    CredentialRecord { id, user_id, expiration }
}

#[test]
fn store_create_and_validity() {
    let mut s = CredentialStore::new();
    assert_eq!(s.create(rec(1, 10, 100)), Ok(()));
    assert_eq!(s.create(rec(1, 11, 200)), Err(StoreError::DuplicateId));
    assert_eq!(s.len(), 1);
    assert!(s.is_valid(1, 99));
    assert!(!s.is_valid(1, 100));
    assert!(!s.is_valid(2, 0));
    assert_eq!(s.lookup_valid(1, 50), Some(rec(1, 10, 100)));
    assert!(s.contains_id(1));
}

#[test]
fn store_delete_is_idempotent() {
    let mut s = CredentialStore::new();
    s.create(rec(1, 10, 100)).unwrap();
    s.create(rec(2, 10, 100)).unwrap();
    assert!(s.delete(1));
    assert!(!s.delete(1));
    assert!(!s.is_valid(1, 0));
    assert!(s.is_valid(2, 0));
}

#[test]
fn store_delete_all_for_user() {
    let mut s = CredentialStore::new();
    s.create(rec(1, 10, 100)).unwrap();
    s.create(rec(2, 11, 100)).unwrap();
    s.create(rec(3, 10, 100)).unwrap();
    s.delete_all_for_user(10);
    assert_eq!(s.len(), 1);
    assert!(!s.is_valid(1, 0));
    assert!(s.is_valid(2, 0));
    assert!(!s.is_valid(3, 0));
}

#[test]
fn error_statuses_and_messages() {
    assert_eq!(AppError::InvalidCredentials.status_code(), 401);
    assert_eq!(AppError::InvalidCredentials.message(), "Invalid credentials");
    assert_eq!(AppError::InvalidToken.message(), "Invalid token");
    assert_eq!(AppError::InvalidSession.status_code(), 401);
    assert_eq!(AppError::HashingFailure.status_code(), 500);
    assert_eq!(AppError::HashingFailure.message(), "Internal server error");
    assert_eq!(AppError::OAuthExchangeFailure.status_code(), 400);
    assert_eq!(AppError::OAuthExchangeFailure.message(), "OAuth error");
    assert_eq!(AppError::OAuthStateMismatch.message(), "Invalid OAuth state");
    assert_eq!(AppError::Internal.status_code(), 500);
    assert_eq!(AppError::Validation(vec![FieldIssue::InvalidEmail]).message(), "Invalid email address");
    assert_eq!(AppError::Validation(vec![]).message(), "");
}

#[test]
fn registration_rules() {
    assert_eq!(validate_registration("Test User", "test@example.com", "test_password"), Ok(()));
    assert_eq!(
        validate_registration("Te", "test@example.com", "test_password"),
        Err(AppError::Validation(vec![FieldIssue::NameLength]))
    );
    assert_eq!(
        validate_registration("Test User", "test.example.com", "1234567"),
        Err(AppError::Validation(vec![FieldIssue::InvalidEmail, FieldIssue::PasswordLength]))
    );
    assert_eq!(
        validate_registration("Test User", "", "12345678"),
        Err(AppError::Validation(vec![FieldIssue::InvalidEmail]))
    );
    let long_name = "n".repeat(51);
    assert_eq!(
        validate_registration(&long_name, "a@b.c", "12345678"),
        Err(AppError::Validation(vec![FieldIssue::NameLength]))
    );
}

#[test]
fn password_hash_verifies_only_its_password() {
    let h = hash_password("correct-password").unwrap();
    assert!(h.starts_with("$argon2"));
    assert!(verify_password("correct-password", &h));
    assert!(!verify_password("wrong-password", &h));
    assert!(!verify_password("correct-password", "not a hash"));
    let h2 = hash_password("correct-password").unwrap();
    assert_ne!(h, h2);
}

#[test]
fn expiry_saturates() {
    assert_eq!(expires_at(1_000, 60), 1_060);
    assert_eq!(expires_at(-100, 60), -40);
    assert_eq!(expires_at(i64::MAX - 10, 60), i64::MAX);
    assert_eq!(expires_at(0, u64::MAX), i64::MAX);
}

#[test]
fn order_direction_defaults_to_descending() {
    assert_eq!(OrderDirection::default(), OrderDirection::Descending);
}
