use base64::Engine;
use linkauth::config::{load, parse_u32, parse_u64, ConfigError, ConfigKey, RawConfig};
use linkauth::hashing::{argon2_check_key_against_hash, argon2_hash_key, setup_strong_argon2};

fn encode_hash(hash: &str) -> String {
    base64::engine::general_purpose::URL_SAFE_NO_PAD.encode(hash.as_bytes())
}

fn full_raw(hash_b64: &str) -> RawConfig {
    RawConfig {
        database_url: Some("postgres://localhost/links".to_string()),
        database_pool_size: Some("8".to_string()),
        host_address: Some("localhost:8000".to_string()),
        admin_password_hash: Some(hash_b64.to_string()),
        admin_login_expires_after_seconds: Some("3600".to_string()),
    }
}

#[test]
fn test_load_full_configuration() {
    let strong = setup_strong_argon2();
    let hash = argon2_hash_key(&strong, "password");
    let config = load(&full_raw(&encode_hash(&hash))).unwrap();

    assert_eq!(config.database_url, "postgres://localhost/links");
    assert_eq!(config.database_pool_size, 8);
    assert_eq!(config.host_address, "localhost:8000");
    assert_eq!(config.admin_login_expires_after_seconds, 3600);
    // the transport encoding decodes back to the original hash string,
    // ready to verify the operator password against
    assert_eq!(config.admin_password_hash, hash);
    assert!(argon2_check_key_against_hash(
        &strong,
        "password",
        &config.admin_password_hash
    ));
}

#[test]
fn test_load_reports_first_missing_value() {
    let mut raw = full_raw(&encode_hash("$fake$hash"));
    raw.database_url = None;
    assert_eq!(
        load(&raw).unwrap_err(),
        ConfigError::Missing(ConfigKey::DatabaseUrl)
    );

    let mut raw = full_raw(&encode_hash("$fake$hash"));
    raw.database_pool_size = None;
    assert_eq!(
        load(&raw).unwrap_err(),
        ConfigError::Missing(ConfigKey::DatabasePoolSize)
    );

    let mut raw = full_raw(&encode_hash("$fake$hash"));
    raw.host_address = None;
    assert_eq!(
        load(&raw).unwrap_err(),
        ConfigError::Missing(ConfigKey::HostAddress)
    );

    let mut raw = full_raw(&encode_hash("$fake$hash"));
    raw.admin_password_hash = None;
    assert_eq!(
        load(&raw).unwrap_err(),
        ConfigError::Missing(ConfigKey::AdminPasswordHash)
    );

    let mut raw = full_raw(&encode_hash("$fake$hash"));
    raw.admin_login_expires_after_seconds = None;
    assert_eq!(
        load(&raw).unwrap_err(),
        ConfigError::Missing(ConfigKey::AdminLoginExpiresAfterSeconds)
    );
}

#[test]
fn test_load_refuses_invalid_values() {
    let mut raw = full_raw(&encode_hash("$fake$hash"));
    raw.database_pool_size = Some("eight".to_string());
    assert_eq!(
        load(&raw).unwrap_err(),
        ConfigError::Invalid(ConfigKey::DatabasePoolSize)
    );

    let mut raw = full_raw(&encode_hash("$fake$hash"));
    raw.admin_password_hash = Some("!!! not base64 !!!".to_string());
    assert_eq!(
        load(&raw).unwrap_err(),
        ConfigError::Invalid(ConfigKey::AdminPasswordHash)
    );

    let mut raw = full_raw(&encode_hash("$fake$hash"));
    raw.admin_login_expires_after_seconds = Some("-1".to_string());
    assert_eq!(
        load(&raw).unwrap_err(),
        ConfigError::Invalid(ConfigKey::AdminLoginExpiresAfterSeconds)
    );
}

#[test]
fn test_parse_u64_numerals() {
    assert_eq!(parse_u64("0"), Some(0));
    assert_eq!(parse_u64("42"), Some(42));
    assert_eq!(parse_u64("+42"), Some(42));
    assert_eq!(parse_u64("007"), Some(7));
    assert_eq!(parse_u64("18446744073709551615"), Some(u64::MAX));

    assert_eq!(parse_u64(""), None);
    assert_eq!(parse_u64("+"), None);
    assert_eq!(parse_u64("-1"), None);
    assert_eq!(parse_u64("4 2"), None);
    assert_eq!(parse_u64("42x"), None);
    assert_eq!(parse_u64("18446744073709551616"), None);
    assert_eq!(parse_u64("99999999999999999999999999"), None);
}

#[test]
fn test_parse_u32_numerals() {
    assert_eq!(parse_u32("4294967295"), Some(u32::MAX));
    assert_eq!(parse_u32("4294967296"), None);
    assert_eq!(parse_u32("16"), Some(16));
    assert_eq!(parse_u32("sixteen"), None);
}
