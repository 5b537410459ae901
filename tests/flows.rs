use community_auth::directory::AuthProvider;
use community_auth::error::AppError;
use community_auth::oauth::GoogleUserInfo;
use community_auth::service::{AuthService, Credential, CredentialModel};
use ring::signature::{Ed25519KeyPair, KeyPair};
use community_auth::token::{
    claims_to_fields, create_access_token, create_refresh_token, decode_access_token, decode_refresh_token,
    AccessTokenClaims, JwtConfig, KeyError,
};

/// A fresh Ed25519 key pair: the PKCS#8 private key and the raw public key.
fn ed25519_pair() -> (Vec<u8>, Vec<u8>) {
    let rng = ring::rand::SystemRandom::new();
    let pkcs8 = Ed25519KeyPair::generate_pkcs8(&rng).unwrap();
    let pair = Ed25519KeyPair::from_pkcs8(pkcs8.as_ref()).unwrap();
    (pkcs8.as_ref().to_vec(), pair.public_key().as_ref().to_vec())
}

fn now() -> i64 {
    std::time::SystemTime::now()
        .duration_since(std::time::UNIX_EPOCH)
        .unwrap()
        .as_secs() as i64
}

fn config(access_age: u64, refresh_age: u64) -> JwtConfig {
    let (access_private, access_public) = ed25519_pair();
    let (refresh_private, refresh_public) = ed25519_pair();
    JwtConfig::from_ed25519(
        access_age,
        refresh_age,
        &access_public,
        &access_private,
        &refresh_public,
        &refresh_private,
    )
}

fn token_service() -> AuthService {
    AuthService::new(config(900, 86400), CredentialModel::SignedTokenPair)
}

fn session_service() -> AuthService {
    AuthService::new(config(900, 86400), CredentialModel::OpaqueSession)
}

fn pair(c: &Credential) -> (String, String, u128) {
    match c {
        Credential::TokenPair { access_token, refresh_token, token_id } => {
            (access_token.clone(), refresh_token.clone(), *token_id)
        }
        Credential::Session { .. } => panic!("expected a token pair"),
    }
}

fn session_text(c: &Credential) -> String {
    match c {
        Credential::Session { session_id } => uuid::Uuid::from_u128(*session_id).to_string(),
        Credential::TokenPair { .. } => panic!("expected a session"),
    }
}

fn profile(sub: &str, email: &str, verified: bool) -> GoogleUserInfo {
    GoogleUserInfo {
        sub: sub.to_string(),
        email: email.to_string(),
        email_verified: verified,
        name: Some("Pat".to_string()),
    }
}

#[test]
fn access_token_round_trip() {
    let cfg = config(900, 86400);
    let t = now();
    let token = create_access_token(&cfg, 77, 42, t).unwrap();
    let claims = decode_access_token(&cfg, &token, t).unwrap();
    assert_eq!(claims.sub, 42);
    assert_eq!(claims.token_id, 77);
    assert_eq!(claims.exp, t + 900);
}

#[test]
fn refresh_token_round_trip() {
    let cfg = config(900, 86400);
    let t = now();
    let token = create_refresh_token(&cfg, 5, 6, t).unwrap();
    let claims = decode_refresh_token(&cfg, &token, t).unwrap();
    assert_eq!((claims.sub, claims.token_id, claims.exp), (6, 5, t + 86400));
}

#[test]
fn token_kinds_do_not_swap() {
    let cfg = config(900, 86400);
    let t = now();
    let access = create_access_token(&cfg, 1, 2, t).unwrap();
    let refresh = create_refresh_token(&cfg, 1, 2, t).unwrap();
    assert_eq!(decode_refresh_token(&cfg, &access, t).unwrap_err(), AppError::InvalidToken);
    assert_eq!(decode_access_token(&cfg, &refresh, t).unwrap_err(), AppError::InvalidToken);
}

#[test]
fn expired_or_garbled_tokens_are_invalid() {
    let cfg = config(900, 86400);
    let t = now();
    let token = create_access_token(&cfg, 1, 2, t).unwrap();
    assert_eq!(decode_access_token(&cfg, &token, t + 900).unwrap_err(), AppError::InvalidToken);
    assert_eq!(decode_access_token(&cfg, "not.a.token", t).unwrap_err(), AppError::InvalidToken);
    let mut tampered = token.clone();
    tampered.push('x');
    assert_eq!(decode_access_token(&cfg, &tampered, t).unwrap_err(), AppError::InvalidToken);
}

#[test]
fn register_then_login() {
    let mut s = token_service();
    let t = now();
    let reg = s.register("carol@example.com", "Carol", "a-long-password", 1, 100, t).unwrap();
    assert_eq!(reg.user.id, 1);
    assert_eq!(reg.user.email, "carol@example.com");
    assert_eq!(reg.user.name, "Carol");
    let ok = s.login("carol@example.com", "a-long-password", 101, t).unwrap();
    assert_eq!(ok.user.id, 1);
    assert_eq!(pair(&ok.credential).2, 101);
    let wrong = s.login("carol@example.com", "another-password", 102, t);
    assert_eq!(wrong.unwrap_err(), AppError::InvalidCredentials);
}

#[test]
fn test_login() {
    let mut s = token_service();
    let t = now();
    s.register("test@example.com", "Test User", "test_password", 1, 10, t).unwrap();
    assert!(s.login("test@example.com", "test_password", 13, t).is_ok());
    let r = s.login("nonexistent@example.com", "test_password", 11, t);
    assert_eq!(r.unwrap_err(), AppError::InvalidCredentials);
    let r = s.login("test@example.com", "wrong_password", 12, t);
    assert_eq!(r.unwrap_err().status_code(), 401);
}

#[test]
fn test_register() {
    let mut s = token_service();
    let t = now();
    s.register("test@example.com", "Test User", "test_password", 1, 10, t).unwrap();
    let e = s.register("test@example.com", "Test User", "test_password", 2, 11, t).unwrap_err();
    assert_eq!(e, AppError::EmailAlreadyInUse("test@example.com".to_string()));
    assert_eq!(e.status_code(), 409);
    assert_eq!(e.message(), "Email already in use: test@example.com");
}

#[test]
fn register_checks_fields() {
    let mut s = token_service();
    let t = now();
    let e = s.register("not-an-email", "Al", "short", 1, 10, t).unwrap_err();
    assert_eq!(e.status_code(), 400);
    assert_eq!(
        e.message(),
        "Name must be between 3 and 50 characters, Invalid email address, Password must be between 8 and 50 characters"
    );
}

#[test]
fn register_with_taken_ids_is_internal() {
    let mut s = token_service();
    let t = now();
    s.register("a@example.com", "Alpha", "password-a", 1, 10, t).unwrap();
    let e = s.register("b@example.com", "Bravo", "password-b", 1, 11, t).unwrap_err();
    assert_eq!(e, AppError::Internal);
    let e = s.register("b@example.com", "Bravo", "password-b", 2, 10, t).unwrap_err();
    assert_eq!(e, AppError::Internal);
    assert!(s.register("b@example.com", "Bravo", "password-b", 2, 11, t).is_ok());
}

#[test]
fn alice_revoke_then_refresh_fails() {
    let mut s = token_service();
    let t = now();
    let reg = s.register("alice@example.com", "Alice", "correct-password", 1, 10, t).unwrap();
    let logged = s.login("alice@example.com", "correct-password", 11, t).unwrap();
    let (access, refresh, token_id) = pair(&logged.credential);
    assert!(s.refresh(&refresh, t).is_ok());
    assert_eq!(s.revoke(&access, t).unwrap(), (token_id, true));
    assert_eq!(s.refresh(&refresh, t).unwrap_err(), AppError::InvalidToken);
    assert_eq!(s.revoke(&access, t).unwrap(), (token_id, false));
    assert_eq!(s.refresh(&refresh, t).unwrap_err(), AppError::InvalidToken);
    let (_, first_refresh, _) = pair(&reg.credential);
    assert!(s.refresh(&first_refresh, t).is_ok());
}

#[test]
fn refreshed_access_token_authenticates() {
    let mut s = token_service();
    let t = now();
    let reg = s.register("dana@example.com", "Dana", "password-d", 4, 40, t).unwrap();
    let (_, refresh, _) = pair(&reg.credential);
    let access = s.refresh(&refresh, t).unwrap();
    let rec = s.authenticate(&access, t).unwrap();
    assert_eq!((rec.id, rec.user_id), (40, 4));
    assert_eq!(s.me(&access, t).unwrap().email, "dana@example.com");
}

#[test]
fn bob_change_password_invalidates_old_tokens() {
    let mut s = token_service();
    let t = now();
    let short = s.register("bob@example.com", "Bobby", "pw1", 2, 20, t).unwrap_err();
    assert_eq!(short, AppError::Validation(vec![community_auth::error::FieldIssue::PasswordLength]));
    let reg = s.register("bob@example.com", "Bobby", "pw1-long-enough", 2, 20, t).unwrap();
    let (old_access, old_refresh, _) = pair(&reg.credential);
    let changed = s
        .change_password(&old_access, "pw1-long-enough", "pw2-long-enough", 21, t)
        .unwrap();
    let (new_access, new_refresh, new_id) = pair(&changed.credential);
    assert_eq!(new_id, 21);
    assert_eq!(s.authenticate(&old_access, t).unwrap_err(), AppError::InvalidToken);
    assert_eq!(s.me(&old_access, t).unwrap_err(), AppError::InvalidToken);
    assert_eq!(s.refresh(&old_refresh, t).unwrap_err(), AppError::InvalidToken);
    assert_eq!(s.me(&new_access, t).unwrap().id, 2);
    assert!(s.refresh(&new_refresh, t).is_ok());
    assert_eq!(
        s.login("bob@example.com", "pw1-long-enough", 22, t).unwrap_err(),
        AppError::InvalidCredentials
    );
    assert!(s.login("bob@example.com", "pw2-long-enough", 23, t).is_ok());
}

#[test]
fn test_change_password() {
    let mut s = token_service();
    let t = now();
    let reg = s.register("test@example.com", "Test User", "old_password", 1, 10, t).unwrap();
    let (access, _, _) = pair(&reg.credential);
    let e = s.change_password(&access, "wrong_old_password", "new_password2", 11, t).unwrap_err();
    assert_eq!(e, AppError::InvalidCredentials);
    assert!(s.me(&access, t).is_ok());
    let e = s.change_password("", "old_password", "new_password", 12, t).unwrap_err();
    assert_eq!(e, AppError::InvalidToken);
}

#[test]
fn expired_refresh_token_fails_without_revocation() {
    let cfg = config(900, 1);
    let mut s = AuthService::new(cfg, CredentialModel::SignedTokenPair);
    let issued = now() - 7200;
    let reg = s.register("erin@example.com", "Erin", "password-e", 5, 50, issued).unwrap();
    let (_, refresh, _) = pair(&reg.credential);
    assert_eq!(s.refresh(&refresh, now()).unwrap_err(), AppError::InvalidToken);
}

#[test]
fn test_me() {
    let mut s = session_service();
    let t = now();
    let reg = s.register("test@example.com", "Test User", "test_password", 1, 10, t).unwrap();
    let sid = session_text(&reg.credential);
    let me = s.me(&sid, t).unwrap();
    assert_eq!(me.id, 1);
    assert_eq!(me.email, "test@example.com");
    assert_eq!(me.name, "Test User");
    assert_eq!(s.me("", t).unwrap_err(), AppError::InvalidSession);
    assert_eq!(s.revoke(&sid, t).unwrap(), (10, true));
    assert_eq!(s.me(&sid, t).unwrap_err(), AppError::InvalidSession);
    assert_eq!(s.revoke(&sid, t).unwrap(), (10, false));
    assert_eq!(s.refresh(&sid, t).unwrap_err(), AppError::InvalidToken);
}

#[test]
fn session_expires_after_a_day() {
    let mut s = session_service();
    let t = 1_000;
    let reg = s.register("test@example.com", "Test User", "test_password", 1, 10, t).unwrap();
    let sid = session_text(&reg.credential);
    assert!(s.authenticate(&sid, t + 86399).is_ok());
    assert_eq!(s.authenticate(&sid, t + 86400).unwrap_err(), AppError::InvalidSession);
}

#[test]
fn session_change_password_revokes_every_session() {
    let mut s = session_service();
    let t = now();
    let reg = s.register("test@example.com", "Test User", "old_password", 1, 10, t).unwrap();
    let other = s.login("test@example.com", "old_password", 11, t).unwrap();
    let first = session_text(&reg.credential);
    let second = session_text(&other.credential);
    let changed = s.change_password(&first, "old_password", "new_password", 12, t).unwrap();
    assert_eq!(s.authenticate(&first, t).unwrap_err(), AppError::InvalidSession);
    assert_eq!(s.authenticate(&second, t).unwrap_err(), AppError::InvalidSession);
    assert!(s.authenticate(&session_text(&changed.credential), t).is_ok());
}

#[test]
fn oauth_state_binds_one_callback() {
    let mut s = session_service();
    s.oauth_start("state-1".to_string(), 100);
    assert_eq!(s.oauth_check_state("other", 100).unwrap_err(), AppError::OAuthStateMismatch);
    assert!(s.oauth_check_state("state-1", 100).is_ok());
    assert_eq!(s.oauth_check_state("state-1", 100).unwrap_err(), AppError::OAuthStateMismatch);
    s.oauth_start("state-2".to_string(), 100);
    assert_eq!(s.oauth_check_state("state-2", 700).unwrap_err(), AppError::OAuthStateMismatch);
}

#[test]
fn oauth_unverified_email_is_refused() {
    let mut s = session_service();
    let e = s.oauth_login(AuthProvider::Google, &profile("g-1", "pat@example.com", false), 1, 10, 0);
    assert_eq!(e.unwrap_err(), AppError::EmailNotVerified);
    assert_eq!(AppError::EmailNotVerified.status_code(), 403);
}

#[test]
fn oauth_linking_is_idempotent() {
    let mut s = session_service();
    let first = s.oauth_login(AuthProvider::Google, &profile("g-1", "pat@example.com", true), 1, 10, 0).unwrap();
    assert!(first.is_new_user);
    assert_eq!(first.user.id, 1);
    assert_eq!(first.user.name, "Pat");
    let second = s.oauth_login(AuthProvider::Google, &profile("g-1", "changed@example.com", true), 2, 11, 0).unwrap();
    assert!(!second.is_new_user);
    assert_eq!(second.user.id, 1);
    assert_eq!(
        s.login("pat@example.com", "anything-at-all", 12, 0).unwrap_err(),
        AppError::InvalidCredentials
    );
}

#[test]
fn oauth_links_existing_email() {
    let mut s = session_service();
    s.register("pat@example.com", "Pat Smith", "password-p", 7, 70, 0).unwrap();
    let linked = s.oauth_login(AuthProvider::GitHub, &profile("gh-9", "pat@example.com", true), 8, 71, 0).unwrap();
    assert!(!linked.is_new_user);
    assert_eq!(linked.user.id, 7);
    assert_eq!(linked.user.name, "Pat Smith");
    assert!(s.login("pat@example.com", "password-p", 72, 0).is_ok());
}

#[test]
fn revoke_all_signs_out_everywhere() {
    let mut s = session_service();
    let t = now();
    let reg = s.register("test@example.com", "Test User", "test_password", 1, 10, t).unwrap();
    let other = s.login("test@example.com", "test_password", 11, t).unwrap();
    s.register("z@example.com", "Zed Zed", "password-z", 2, 20, t).unwrap();
    assert_eq!(s.revoke_all(&session_text(&other.credential), t).unwrap(), 1);
    assert_eq!(s.authenticate(&session_text(&reg.credential), t).unwrap_err(), AppError::InvalidSession);
    assert_eq!(s.authenticate(&session_text(&other.credential), t).unwrap_err(), AppError::InvalidSession);
    assert!(s.authenticate(&uuid::Uuid::from_u128(20).to_string(), t).is_ok());
}

#[test]
fn session_ids_are_read_as_uuids() {
    let mut s = session_service();
    let id: u128 = 0x67e5504410b1426f9247bb680e5fe0c8;
    s.register("test@example.com", "Test User", "test_password", 1, id, 0).unwrap();
    assert_eq!(s.authenticate("67e55044-10b1-426f-9247-bb680e5fe0c8", 0).unwrap().id, id);
    assert_eq!(s.authenticate("67e5504410b1426f9247bb680e5fe0c8", 0).unwrap().user_id, 1);
    assert_eq!(s.authenticate("not-a-uuid", 0).unwrap_err(), AppError::InvalidSession);
    assert_eq!(s.revoke("not-a-uuid", 0).unwrap_err(), AppError::InvalidSession);
}

#[test]
fn test_revoke() {
    let mut s = session_service();
    let t = now();
    let reg = s.register("test@example.com", "Test User", "test_password", 1, 10, t).unwrap();
    assert_eq!(s.revoke("", t).unwrap_err(), AppError::InvalidSession);
    let sid = session_text(&reg.credential);
    assert_eq!(s.revoke(&sid, t).unwrap(), (10, true));
    assert_eq!(s.revoke(&sid, t).unwrap(), (10, false));
    assert_eq!(s.authenticate(&sid, t).unwrap_err(), AppError::InvalidSession);
}

#[test]
fn malformed_rsa_keys_are_refused() {
    let r = JwtConfig::from_pem(900, 86400, b"not a key", b"not a key", b"not a key", b"not a key");
    assert_eq!(r.err(), Some(KeyError::AccessPublic));
}

#[test]
fn register_gives_a_password_to_an_oauth_account() {
    let mut s = session_service();
    let first = s.oauth_login(AuthProvider::Google, &profile("g-1", "pat@example.com", true), 1, 10, 0).unwrap();
    assert!(first.is_new_user);
    let reg = s.register("pat@example.com", "Someone Else", "password-p", 2, 11, 0).unwrap();
    assert_eq!(reg.user.id, 1);
    assert_eq!(reg.user.name, "Pat");
    assert_eq!(s.login("pat@example.com", "password-p", 12, 0).unwrap().user.id, 1);
    let again = s.register("pat@example.com", "Someone Else", "password-q", 3, 13, 0).unwrap_err();
    assert_eq!(again, AppError::EmailAlreadyInUse("pat@example.com".to_string()));
    let back = s.oauth_login(AuthProvider::Google, &profile("g-1", "pat@example.com", true), 4, 14, 0).unwrap();
    assert_eq!(back.user.id, 1);
    assert!(!back.is_new_user);
}

#[test]
fn claim_fields_are_hyphenated_ids() {
    let c = AccessTokenClaims { sub: 0x67e5504410b1426f9247bb680e5fe0c8, token_id: 1, exp: 99 };
    let (sub, token_id, exp) = claims_to_fields(c);
    assert_eq!(sub, "67e55044-10b1-426f-9247-bb680e5fe0c8");
    assert_eq!(token_id, "00000000-0000-0000-0000-000000000001");
    assert_eq!(exp, 99);
}

#[test]
fn change_password_wrong_old_password_changes_nothing() {
    let mut s = session_service();
    let reg = s.register("test@example.com", "Test User", "old_password", 1, 10, 0).unwrap();
    let sid = session_text(&reg.credential);
    let e = s.change_password(&sid, "wrong_old_password", "new_password", 11, 0).unwrap_err();
    assert_eq!(e, AppError::InvalidCredentials);
    assert!(s.authenticate(&sid, 0).is_ok());
    assert!(s.login("test@example.com", "old_password", 12, 0).is_ok());
    assert_eq!(s.change_password(&sid, "old_password", "new_password", 12, 0).unwrap_err(), AppError::Internal);
    let ok = s.change_password(&sid, "old_password", "new_password", 13, 0).unwrap();
    assert_eq!(ok.user.id, 1);
    assert_eq!(s.change_password(&sid, "new_password", "newer_password", 14, 0).unwrap_err(), AppError::InvalidSession);
}
