use base64::engine::general_purpose::STANDARD;
use base64::Engine;
use blog_auth::auth::{
    change_password, change_password_with_salt, check_token_header, grant_login, login, logout,
    resolve_session, ttl_seconds_from_minutes, AuthConfig, AuthError, Denial, UserRecord,
};
use blog_auth::token::{generate_at, IssueError};
use blog_auth::entropy::{fresh_token_id, to_hex};
use blog_auth::password::{hash_password, verify_password};
use blog_auth::session::{get_command, put_command, remove_command, SessionCommand, SessionLookup};
use blog_auth::token::{verify_at, SigningAlgorithm, SigningKey, VerifyingKey};
use blog_auth::user::schema::FilterOptions;
use ring::signature::{Ed25519KeyPair, KeyPair};
use std::collections::HashMap;

fn pem(tag: &str, der: &[u8]) -> String {
    format!("-----BEGIN {tag}-----\n{}\n-----END {tag}-----\n", STANDARD.encode(der))
}

fn config(ttl_seconds: u64) -> AuthConfig {
    let seed = [3u8; 32];
    let mut pkcs8 = vec![
        0x30, 0x2e, 0x02, 0x01, 0x00, 0x30, 0x05, 0x06, 0x03, 0x2b, 0x65, 0x70, 0x04, 0x22, 0x04, 0x20,
    ];
    pkcs8.extend_from_slice(&seed);
    let pair = Ed25519KeyPair::from_seed_unchecked(&seed).unwrap();
    let mut spki = vec![0x30, 0x2a, 0x30, 0x05, 0x06, 0x03, 0x2b, 0x65, 0x70, 0x03, 0x21, 0x00];
    spki.extend_from_slice(pair.public_key().as_ref());
    AuthConfig {
        signing: SigningKey::from_base64_pem(&STANDARD.encode(pem("PRIVATE KEY", &pkcs8)), SigningAlgorithm::EdDsa)
            .ok()
            .unwrap(),
        verifying: VerifyingKey::from_base64_pem(&STANDARD.encode(pem("PUBLIC KEY", &spki)), SigningAlgorithm::EdDsa)
            .ok()
            .unwrap(),
        ttl_seconds,
    }
}

fn alice() -> UserRecord {
    UserRecord {
        id: b"65f0c1a2b3c4d5e6f7a8b9c0".to_vec(),
        password_hash: hash_password(b"wonderland").unwrap(),
        nickname: "Alice".to_string(),
        avatar: "/img/alice.png".to_string(),
    }
}

/// A stand-in for the key-value store: token id to (user id, lapse time).
struct Store(HashMap<Vec<u8>, (Vec<u8>, u64)>);

impl Store {
    fn run(&mut self, cmd: &SessionCommand, now: u64) -> SessionLookup {
        match cmd {
            SessionCommand::Put { token_id, user_id, ttl_seconds } => {
                self.0.insert(token_id.clone(), (user_id.clone(), now + ttl_seconds));
                SessionLookup::Absent
            }
            SessionCommand::Get { token_id } => match self.0.get(token_id) {
                Some((u, lapse)) if now < *lapse => SessionLookup::Found(u.clone()),
                _ => SessionLookup::Absent,
            },
            SessionCommand::Remove { token_id } => {
                self.0.remove(token_id);
                SessionLookup::Absent
            }
        }
    }
}

#[test]
fn login_records_session_for_token_subject() {
    let cfg = config(3600);
    let user = alice();
    let grant = login(&cfg, Some(&user), b"wonderland", 1000).unwrap();
    assert_eq!(grant.nickname, "Alice");
    assert_eq!(grant.avatar, "/img/alice.png");
    assert_eq!(grant.token.user_id, user.id);
    assert_eq!(grant.token.issued_at, 1000);
    assert_eq!(grant.token.expires_at, 4600);
    match &grant.session {
        SessionCommand::Put { token_id, user_id, ttl_seconds } => {
            assert_eq!(token_id, &grant.token.token_id);
            assert_eq!(user_id, &user.id);
            assert_eq!(*ttl_seconds, 3600);
        }
        _ => panic!("login must put a session"),
    }
    let mut store = Store(HashMap::new());
    store.run(&grant.session, 1000);
    let checked = check_token_header(&cfg.verifying, Some(&grant.token.token), 1001).unwrap();
    let found = store.run(&get_command(&checked.token_id), 1001);
    let who = resolve_session(&checked, found).unwrap();
    assert_eq!(who, user.id);
    assert_eq!(checked.user_id, user.id);
}

#[test]
fn removed_session_denies_a_still_valid_token() {
    let cfg = config(3600);
    let user = alice();
    let grant = login(&cfg, Some(&user), b"wonderland", 1000).unwrap();
    let mut store = Store(HashMap::new());
    store.run(&grant.session, 1000);
    store.run(&remove_command(&grant.token.token_id), 1010);
    assert!(verify_at(&grant.token.token, &cfg.verifying, 1020).is_ok());
    let checked = check_token_header(&cfg.verifying, Some(&grant.token.token), 1020).unwrap();
    let found = store.run(&get_command(&checked.token_id), 1020);
    let err = resolve_session(&checked, found).unwrap_err();
    assert_eq!(err, AuthError::Unauthorized(Denial::SessionMissing));
    assert_eq!(err.status_code(), 401);
}

#[test]
fn removing_an_absent_session_is_harmless() {
    let mut store = Store(HashMap::new());
    store.run(&remove_command(&b"nothing-here".to_vec()), 0);
    store.run(&remove_command(&b"nothing-here".to_vec()), 0);
    assert!(store.0.is_empty());
}

#[test]
fn expired_token_is_refused_even_with_live_session() {
    let cfg = config(60);
    let user = alice();
    let grant = login(&cfg, Some(&user), b"wonderland", 1000).unwrap();
    let mut store = Store(HashMap::new());
    store.run(&put_command(&grant.token.token_id, &grant.token.user_id, 100_000), 1000);
    let err = check_token_header(&cfg.verifying, Some(&grant.token.token), 1060).unwrap_err();
    assert_eq!(err, AuthError::Unauthorized(Denial::Expired));
    assert_eq!(err.status_code(), 401);
}

#[test]
fn wrong_password_twice_gives_two_failures_and_no_session() {
    let cfg = config(3600);
    let user = alice();
    let mut store = Store(HashMap::new());
    for _ in 0..2 {
        let r = login(&cfg, Some(&user), b"looking-glass", 1000);
        let err = r.err().unwrap();
        assert_eq!(err, AuthError::InvalidCredentials);
        assert_eq!(err.status_code(), 400);
        assert_eq!(err.message(), "Invalid password");
    }
    assert!(store.0.is_empty());
    store.run(&get_command(&b"x".to_vec()), 0);
    assert!(store.0.is_empty());
}

#[test]
fn unknown_user_looks_like_wrong_password() {
    let cfg = config(3600);
    let err = login(&cfg, None, b"wonderland", 1000).err().unwrap();
    assert_eq!(err, AuthError::InvalidCredentials);
    assert_eq!(err.message(), "Invalid password");
    assert_eq!(err.status_code(), 400);
}

#[test]
fn malformed_stored_hash_is_invalid_credentials() {
    let cfg = config(3600);
    let mut user = alice();
    user.password_hash = "wonderland".to_string();
    let err = login(&cfg, Some(&user), b"wonderland", 1000).err().unwrap();
    assert_eq!(err, AuthError::InvalidCredentials);
}

#[test]
fn logout_succeeds_without_any_token() {
    let first = logout();
    let second = logout();
    assert_eq!(first.status, 200);
    assert_eq!(first.expired_cookie, "token");
    assert_eq!(first.blanked_header, "token");
    assert_eq!(second.status, 200);
}

#[test]
fn missing_token_header_is_refused() {
    let cfg = config(3600);
    let err = check_token_header(&cfg.verifying, None, 0).unwrap_err();
    assert_eq!(err, AuthError::MissingToken);
    assert_eq!(err.status_code(), 401);
    assert_eq!(err.message(), "Token is empty");
}

#[test]
fn garbage_token_header_is_unauthorized() {
    let cfg = config(3600);
    let err = check_token_header(&cfg.verifying, Some(b"not-a-token"), 0).unwrap_err();
    assert_eq!(err, AuthError::Unauthorized(Denial::Malformed));
    assert_eq!(err.status_code(), 401);
}

#[test]
fn store_outage_is_not_an_auth_failure() {
    let cfg = config(3600);
    let grant = login(&cfg, Some(&alice()), b"wonderland", 1000).unwrap();
    let checked = check_token_header(&cfg.verifying, Some(&grant.token.token), 1000).unwrap();
    let err = resolve_session(&checked, SessionLookup::Unavailable).unwrap_err();
    assert_eq!(err, AuthError::SessionStoreUnavailable);
    assert_eq!(err.status_code(), 503);
}

#[test]
fn session_of_another_user_is_refused() {
    let cfg = config(3600);
    let grant = login(&cfg, Some(&alice()), b"wonderland", 1000).unwrap();
    let checked = check_token_header(&cfg.verifying, Some(&grant.token.token), 1000).unwrap();
    let err = resolve_session(&checked, SessionLookup::Found(b"someone-else".to_vec())).unwrap_err();
    assert_eq!(err, AuthError::Unauthorized(Denial::SessionMismatch));
}

#[test]
fn change_password_checks_old_and_hashes_new() {
    let user = alice();
    let err = change_password(Some(&user), b"wrong", b"new-secret").err().unwrap();
    assert_eq!(err, AuthError::OldPasswordIncorrect);
    assert_eq!(err.status_code(), 400);
    assert_eq!(err.message(), "旧密码不正确");
    assert_eq!(change_password(None, b"wonderland", b"x").err().unwrap(), AuthError::InvalidCredentials);
    let change = change_password(Some(&user), b"wonderland", b"new-secret").ok().unwrap();
    assert_eq!(change.user_id, user.id);
    assert!(verify_password(b"new-secret", &change.new_hash));
    assert!(!verify_password(b"wonderland", &change.new_hash));
}

#[test]
fn password_change_keeps_existing_sessions() {
    let cfg = config(3600);
    let user = alice();
    let grant = login(&cfg, Some(&user), b"wonderland", 1000).unwrap();
    let mut store = Store(HashMap::new());
    store.run(&grant.session, 1000);
    let _change = change_password(Some(&user), b"wonderland", b"new-secret").ok().unwrap();
    let checked = check_token_header(&cfg.verifying, Some(&grant.token.token), 1500).unwrap();
    let found = store.run(&get_command(&checked.token_id), 1500);
    assert_eq!(resolve_session(&checked, found).unwrap(), user.id);
}

#[test]
fn other_errors_map_to_server_statuses() {
    assert_eq!(AuthError::Internal.status_code(), 500);
    assert_eq!(AuthError::Unauthorized(Denial::InvalidSignature).message(), "Token signature is invalid");
    assert_eq!(AuthError::Unauthorized(Denial::Expired).message(), "Token has expired");
}

#[test]
fn ttl_minutes_convert_to_seconds() {
    assert_eq!(ttl_seconds_from_minutes(60), Some(3600));
    assert_eq!(ttl_seconds_from_minutes(0), Some(0));
    assert_eq!(ttl_seconds_from_minutes(u64::MAX / 60 + 1), None);
}

#[test]
fn token_ids_are_hex_and_fresh() {
    assert_eq!(to_hex(&[0x00, 0xab, 0xff, 0x10]), b"00abff10".to_vec());
    let a = fresh_token_id().unwrap();
    let b = fresh_token_id().unwrap();
    assert_eq!(a.len(), 32);
    assert!(a.iter().all(|c| c.is_ascii_hexdigit() && !c.is_ascii_uppercase()));
    assert_ne!(a, b);
}

#[test]
fn list_filter_defaults() {
    let none = FilterOptions::default();
    assert_eq!(none.page_or_default(), 1);
    assert_eq!(none.limit_or_default(), 10);
    let some = FilterOptions { page: Some(3), limit: Some(25), ..FilterOptions::default() };
    assert_eq!(some.page_or_default(), 3);
    assert_eq!(some.limit_or_default(), 25);
}

#[test]
fn change_password_with_fixed_salt_is_reproducible() {
    let user = alice();
    let salt = [5u8; 16];
    let a = change_password_with_salt(Some(&user), b"wonderland", b"new-secret", &salt).ok().unwrap();
    let b = change_password_with_salt(Some(&user), b"wonderland", b"new-secret", &salt).ok().unwrap();
    assert_eq!(a.new_hash, b.new_hash);
    assert!(verify_password(b"new-secret", &a.new_hash));
    let err = change_password_with_salt(Some(&user), b"nope", b"new-secret", &salt).err().unwrap();
    assert_eq!(err, AuthError::OldPasswordIncorrect);
    let err = change_password_with_salt(None, b"wonderland", b"new-secret", &salt).err().unwrap();
    assert_eq!(err, AuthError::InvalidCredentials);
}

#[test]
fn grant_login_maps_issuing_outcome() {
    let cfg = config(600);
    let user = alice();
    let err = grant_login(&user, Err(IssueError::SigningFailed), 600).err().unwrap();
    assert_eq!(err, AuthError::Internal);
    assert_eq!(err.status_code(), 500);
    let t = generate_at(&user.id, 600, &cfg.signing, 50).unwrap();
    let g = grant_login(&user, Ok(t.clone()), 600).unwrap();
    assert_eq!(g.token.token, t.token);
    assert_eq!(g.nickname, "Alice");
    match g.session {
        SessionCommand::Put { token_id, user_id, ttl_seconds } => {
            assert_eq!(token_id, t.token_id);
            assert_eq!(user_id, t.user_id);
            assert_eq!(ttl_seconds, 600);
        }
        _ => panic!("a grant must put a session"),
    }
}

#[test]
fn user_id_that_is_not_an_identifier_fails_internally() {
    let cfg = config(600);
    let mut user = alice();
    user.id = b"has space".to_vec();
    let err = login(&cfg, Some(&user), b"wonderland", 0).err().unwrap();
    assert_eq!(err, AuthError::Internal);
}

#[test]
fn token_checks_after_logout_and_password_change_are_unchanged() {
    let cfg = config(3600);
    let user = alice();
    let grant = login(&cfg, Some(&user), b"wonderland", 1000).unwrap();
    let before = check_token_header(&cfg.verifying, Some(&grant.token.token), 1100).unwrap();
    let _ = logout();
    let _ = change_password(Some(&user), b"wonderland", b"other").ok().unwrap();
    let after = check_token_header(&cfg.verifying, Some(&grant.token.token), 1100).unwrap();
    assert_eq!(before.token_id, after.token_id);
    assert_eq!(before.user_id, after.user_id);
}
