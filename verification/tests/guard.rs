use base64::Engine;
use linkauth::errors::AuthRejection;
use linkauth::guard::{
    authenticate_platform, dashboard_auth_middleware, guard_dashboard_request,
    guard_platform_request,
};
use linkauth::hashing::{argon2_hash_key, setup_strong_argon2};
use linkauth::platforms::PlatformStore;
use linkauth::session::{DashboardSessionLoginTokenData, TokenStore};

const TTL: u64 = 3600;

fn basic_header(username: &str, password: &str) -> String {
    let payload = format!("{}:{}", username, password);
    let encoded = base64::engine::general_purpose::STANDARD.encode(payload.as_bytes());
    format!("Basic {}", encoded)
}

fn uuid_text(id: u128) -> String {
    uuid::Uuid::from_u128(id).to_string()
}

#[test]
fn test_from_request_missing_auth_header() {
    let store = PlatformStore::new();

    let error = authenticate_platform(&store, None).unwrap_err();

    assert!(matches!(error, AuthRejection::MissingCredential));
}

#[test]
fn test_from_request_invalid_basic_auth_syntax() {
    let store = PlatformStore::new();

    for header_value in [
        "Basic",
        "Basic ",
        "Basic invalid",
        "Basic ZGVleiBudXR6",
        "Basic !@#$%^&&*()-=_+,./<>?[]\\|}{",
    ] {
        let error = authenticate_platform(&store, Some(header_value)).unwrap_err();
        assert!(matches!(error, AuthRejection::MalformedCredential));
    }
}

#[test]
fn test_from_request_non_uuid_platform_id() {
    let store = PlatformStore::new();

    for platform_id_value in ["", "username", "ca15ae9-4d7-46f-a4f-605b42aab03"] {
        let header = basic_header(platform_id_value, "password");
        let error = authenticate_platform(&store, Some(&header)).unwrap_err();
        assert!(matches!(error, AuthRejection::MalformedCredential));
    }
}

#[test]
fn test_from_request_platform_not_found() {
    let mut store = PlatformStore::new();
    let (api_key, platform) = store.create_platform("test_patience").unwrap();

    let header = basic_header(&uuid_text(platform.id.wrapping_add(1)), &api_key);
    let error = authenticate_platform(&store, Some(&header)).unwrap_err();

    assert!(matches!(error, AuthRejection::UnknownPrincipal));
}

#[test]
fn test_from_request_invalid_api_key() {
    let mut store = PlatformStore::new();
    let (api_key, platform) = store.create_platform("test_patience").unwrap();

    let mut api_key_off_by_one_char = api_key.clone();
    api_key_off_by_one_char.pop();
    api_key_off_by_one_char.push(if api_key_off_by_one_char.ends_with('A') {
        'B'
    } else {
        'A'
    });

    for api_key_value in [api_key_off_by_one_char.as_str(), "", "test"] {
        let header = basic_header(&uuid_text(platform.id), api_key_value);
        let error = authenticate_platform(&store, Some(&header)).unwrap_err();
        assert!(matches!(error, AuthRejection::InvalidSecret));
    }
}

#[test]
fn test_from_request_valid_auth_header() {
    let mut store = PlatformStore::new();
    let (api_key, platform) = store.create_platform("Dev-Milo").unwrap();

    let header = basic_header(&uuid_text(platform.id), &api_key);
    let authed = authenticate_platform(&store, Some(&header)).unwrap();

    assert_eq!(authed.0.id, platform.id);
    assert_eq!(authed.0.name, platform.name);
    assert_eq!(authed.0.api_key_hash, platform.api_key_hash);
}

#[test]
fn test_platform_guard_collapses_every_reason() {
    let mut store = PlatformStore::new();
    let (api_key, platform) = store.create_platform("Opaque").unwrap();

    // missing, malformed, unknown and wrong-key rejections are
    // indistinguishable at the boundary
    assert!(guard_platform_request(&store, None).is_err());
    assert!(guard_platform_request(&store, Some("Basic nope")).is_err());
    let unknown = basic_header(&uuid_text(platform.id.wrapping_add(1)), &api_key);
    assert!(guard_platform_request(&store, Some(&unknown)).is_err());
    let wrong = basic_header(&uuid_text(platform.id), "wrong");
    assert!(guard_platform_request(&store, Some(&wrong)).is_err());

    let good = basic_header(&uuid_text(platform.id), &api_key);
    assert!(guard_platform_request(&store, Some(&good)).is_ok());
}

#[test]
fn test_scheme_marker_case_insensitive_and_extra_spaces() {
    let mut store = PlatformStore::new();
    let (api_key, platform) = store.create_platform("Tolerant").unwrap();

    let payload = base64::engine::general_purpose::STANDARD
        .encode(format!("{}:{}", uuid_text(platform.id), api_key).as_bytes());

    // the scheme name is ASCII-case-insensitive...
    assert!(authenticate_platform(&store, Some(&format!("basic {payload}"))).is_ok());
    assert!(authenticate_platform(&store, Some(&format!("BASIC {payload}"))).is_ok());
    assert!(authenticate_platform(&store, Some(&format!("bAsIc {payload}"))).is_ok());
    // ...and extra spaces before the encoded credential are skipped
    assert!(authenticate_platform(&store, Some(&format!("Basic   {payload}"))).is_ok());
    // but the space after the scheme is still required, and spaces alone
    // carry no credential
    assert!(authenticate_platform(&store, Some(&format!("Basic{payload}"))).is_err());
    assert!(authenticate_platform(&store, Some("Basic    ")).is_err());
}

fn store_with_session(now: i64) -> (TokenStore, DashboardSessionLoginTokenData) {
    let strong = setup_strong_argon2();
    let admin_hash = argon2_hash_key(&strong, "password");
    let mut store = TokenStore::new();
    let data =
        linkauth::session::attempt_log_in_dashboard_session(&mut store, &admin_hash, "password", now)
            .unwrap()
            .unwrap();
    (store, data)
}

#[test]
fn test_dashboard_guard_accepts_valid_session() {
    let (store, data) = store_with_session(1000);

    assert!(dashboard_auth_middleware(&store, Some(&data), 1000, TTL).is_ok());
    assert!(guard_dashboard_request(&store, Some(&data), 1000, TTL).is_ok());
}

#[test]
fn test_dashboard_guard_rejects_missing_cookie() {
    let (store, _) = store_with_session(1000);

    let error = dashboard_auth_middleware(&store, None, 1000, TTL).unwrap_err();
    assert!(matches!(error, AuthRejection::MissingCredential));
}

#[test]
fn test_dashboard_guard_rejects_unknown_token_id() {
    let (store, data) = store_with_session(1000);

    let stranger = DashboardSessionLoginTokenData {
        id: data.id.wrapping_add(1),
        token: data.token.clone(),
    };
    let error = dashboard_auth_middleware(&store, Some(&stranger), 1000, TTL).unwrap_err();
    assert!(matches!(error, AuthRejection::UnknownPrincipal));
}

#[test]
fn test_dashboard_guard_rejects_expired_token() {
    let (store, data) = store_with_session(1000);

    let error =
        dashboard_auth_middleware(&store, Some(&data), 1000 + TTL as i64, TTL).unwrap_err();
    assert!(matches!(error, AuthRejection::Expired));
}

#[test]
fn test_dashboard_guard_rejects_bad_secret() {
    let (store, data) = store_with_session(1000);

    let forged = DashboardSessionLoginTokenData {
        id: data.id,
        token: "0".repeat(96),
    };
    let error = dashboard_auth_middleware(&store, Some(&forged), 1000, TTL).unwrap_err();
    assert!(matches!(error, AuthRejection::InvalidSecret));

    assert!(guard_dashboard_request(&store, Some(&forged), 1000, TTL).is_err());
}
