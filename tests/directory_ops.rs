use community_auth::directory::{AuthProvider, Directory, DirectoryError, Key, User};
use community_auth::store::CredentialRecord;

fn user(id: u128, email: &str) -> User {
    User { id, email: email.to_string(), name: "Name".to_string(), is_admin: false }
}

fn key(id: &str, provider: AuthProvider, user_id: u128, hash: Option<&str>) -> Key {
    Key { id: id.to_string(), provider, user_id, hashed_password: hash.map(|h| h.to_string()) }
}

#[test]
fn users_are_unique_by_id_and_email() {
    let mut d = Directory::new();
    assert_eq!(d.create_user(user(1, "a@example.com")), Ok(()));
    assert_eq!(d.create_user(user(1, "b@example.com")), Err(DirectoryError::IdInUse));
    assert_eq!(d.create_user(user(2, "a@example.com")), Err(DirectoryError::EmailInUse));
    assert_eq!(d.get_user_by_email("a@example.com").unwrap().id, 1);
    assert_eq!(d.get_user_by_id(1).unwrap().email, "a@example.com");
    assert!(d.get_user_by_email("b@example.com").is_none());
    assert!(d.get_user_by_id(2).is_none());
}

#[test]
fn keys_are_unique_and_owned() {
    let mut d = Directory::new();
    d.create_user(user(1, "a@example.com")).unwrap();
    assert_eq!(d.create_key(key("a@example.com", AuthProvider::Email, 1, Some("h"))), Ok(()));
    assert_eq!(
        d.create_key(key("a@example.com", AuthProvider::Email, 1, None)),
        Err(DirectoryError::KeyInUse)
    );
    assert_eq!(d.create_key(key("g-7", AuthProvider::Google, 9, None)), Err(DirectoryError::UnknownUser));
    assert_eq!(d.create_key(key("a@example.com", AuthProvider::Google, 1, None)), Ok(()));
    let k = d.get_key(AuthProvider::Email, "a@example.com").unwrap();
    assert_eq!(k.hashed_password.as_deref(), Some("h"));
    assert!(d.get_key(AuthProvider::GitHub, "a@example.com").is_none());
}

#[test]
fn key_password_update() {
    let mut d = Directory::new();
    d.create_user(user(1, "a@example.com")).unwrap();
    d.create_key(key("a@example.com", AuthProvider::Email, 1, Some("old"))).unwrap();
    assert!(d.update_key_password(AuthProvider::Email, "a@example.com", "new".to_string()));
    assert!(!d.update_key_password(AuthProvider::Email, "b@example.com", "new".to_string()));
    let k = d.get_key(AuthProvider::Email, "a@example.com").unwrap();
    assert_eq!(k.hashed_password.as_deref(), Some("new"));
    assert_eq!(k.user_id, 1);
}

#[test]
fn key_listing_and_deletion() {
    let mut d = Directory::new();
    d.create_user(user(1, "a@example.com")).unwrap();
    d.create_user(user(2, "b@example.com")).unwrap();
    d.create_key(key("a@example.com", AuthProvider::Email, 1, Some("h"))).unwrap();
    d.create_key(key("g-1", AuthProvider::Google, 1, None)).unwrap();
    d.create_key(key("b@example.com", AuthProvider::Email, 2, Some("h"))).unwrap();
    let ids: Vec<String> = d.get_user_keys(1).into_iter().map(|k| k.id).collect();
    assert_eq!(ids, vec!["a@example.com".to_string(), "g-1".to_string()]);
    assert!(d.delete_key(AuthProvider::Google, "g-1"));
    assert!(!d.delete_key(AuthProvider::Google, "g-1"));
    assert_eq!(d.get_user_keys(1).len(), 1);
    d.delete_all_user_keys(1);
    assert!(d.get_user_keys(1).is_empty());
    assert_eq!(d.get_user_keys(2).len(), 1);
}

#[test]
fn random_sessions_belong_to_their_account() {
    let a = CredentialRecord::new_random_from(5);
    let b = CredentialRecord::new_random_from(5);
    assert_eq!(a.user_id, 5);
    assert_ne!(a.id, b.id);
    let now = std::time::SystemTime::now()
        .duration_since(std::time::UNIX_EPOCH)
        .unwrap()
        .as_secs() as i64;
    assert!(a.expiration > now + 86000 && a.expiration <= now + 86400 + 5);
}
