use linkauth::hashing::{argon2_hash_key, setup_strong_argon2, setup_weak_argon2};
use linkauth::session::{
    attempt_log_in_dashboard_session, check_session, generate_dashboard_login_token, TokenStore,
};

const TTL: u64 = 3600;

fn admin_hash(password: &str) -> String {
    let strong = setup_strong_argon2();
    argon2_hash_key(&strong, password)
}

#[test]
fn test_generate_dashboard_login_token_shape() {
    let generated = generate_dashboard_login_token();

    assert_eq!(generated.token.len(), 96);
    assert!(generated.token.chars().all(|c| c.is_ascii_alphanumeric()));

    let weak = setup_weak_argon2();
    assert!(linkauth::hashing::argon2_check_key_against_hash(
        &weak,
        &generated.token,
        &generated.hash
    ));
}

#[test]
fn test_login_and_check_session_end_to_end() {
    let hash = admin_hash("correct horse battery staple");
    let mut store = TokenStore::new();
    let now = 1_000_000;

    let data = attempt_log_in_dashboard_session(&mut store, &hash, "correct horse battery staple", now)
        .unwrap()
        .unwrap();

    assert_eq!(store.len(), 1);
    assert_eq!(data.token.len(), 96);

    // the returned credential is accepted...
    assert!(check_session(&store, data.id, &data.token, now, TTL));

    // ...but a tampered secret is not
    let mut tampered = data.token.clone().into_bytes();
    tampered[0] = if tampered[0] == b'A' { b'B' } else { b'A' };
    let tampered = String::from_utf8(tampered).unwrap();
    assert!(!check_session(&store, data.id, &tampered, now, TTL));
}

#[test]
fn test_wrong_password_creates_no_token_row() {
    let hash = admin_hash("the real password");
    let mut store = TokenStore::new();

    let outcome = attempt_log_in_dashboard_session(&mut store, &hash, "wrong", 42).unwrap();

    assert!(outcome.is_none());
    assert_eq!(store.len(), 0);
}

#[test]
fn test_check_session_ttl_window() {
    let hash = admin_hash("password");
    let mut store = TokenStore::new();
    let issued_at = 50_000;

    let data = attempt_log_in_dashboard_session(&mut store, &hash, "password", issued_at)
        .unwrap()
        .unwrap();

    // accepted through the whole window [T, T + TTL)...
    assert!(check_session(&store, data.id, &data.token, issued_at, TTL));
    assert!(check_session(
        &store,
        data.id,
        &data.token,
        issued_at + TTL as i64 - 1,
        TTL
    ));
    // ...and rejected from the boundary instant on
    assert!(!check_session(
        &store,
        data.id,
        &data.token,
        issued_at + TTL as i64,
        TTL
    ));
    assert!(!check_session(
        &store,
        data.id,
        &data.token,
        issued_at + TTL as i64 + 1,
        TTL
    ));
}

#[test]
fn test_expired_token_looks_missing() {
    let weak = setup_weak_argon2();
    let secret = "a known session secret";
    let token_hash = argon2_hash_key(&weak, secret);

    let mut store = TokenStore::new();
    let row = store.create_dashboard_login_token(&token_hash, 100).unwrap();

    assert!(store.get_dashboard_login_token(row.id, 150, 100).is_some());
    // expired: reported exactly like an unknown identifier
    assert!(store.get_dashboard_login_token(row.id, 200, 100).is_none());
    assert!(store.get_dashboard_login_token(0x1234, 150, 100).is_none());
    // the row still physically exists
    assert_eq!(store.len(), 1);
    assert!(store.get_token(row.id).is_some());
}

#[test]
fn test_check_session_unknown_id_rejected() {
    let hash = admin_hash("password");
    let mut store = TokenStore::new();
    let data = attempt_log_in_dashboard_session(&mut store, &hash, "password", 0)
        .unwrap()
        .unwrap();

    let other_id = data.id.wrapping_add(1);
    assert!(!check_session(&store, other_id, &data.token, 0, TTL));
}

#[test]
fn test_two_logins_issue_distinct_rows() {
    let hash = admin_hash("password");
    let mut store = TokenStore::new();

    let first = attempt_log_in_dashboard_session(&mut store, &hash, "password", 0)
        .unwrap()
        .unwrap();
    let second = attempt_log_in_dashboard_session(&mut store, &hash, "password", 0)
        .unwrap()
        .unwrap();

    assert_eq!(store.len(), 2);
    assert_ne!(first.id, second.id);
    assert_ne!(first.token, second.token);
    assert!(check_session(&store, first.id, &first.token, 0, TTL));
    assert!(check_session(&store, second.id, &second.token, 0, TTL));
    // credentials are not interchangeable across rows
    assert!(!check_session(&store, first.id, &second.token, 0, TTL));
}
