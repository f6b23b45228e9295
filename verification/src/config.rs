//! Process configuration: the raw environment values, validated and
//! decoded into one immutable `Config` value.
//!
//! The configuration is constructed once at process start and passed by
//! reference into every component that needs it; there is no ambient
//! global state.  Reading the environment is the caller's job — this
//! module only validates and decodes the values it is handed, and says
//! exactly which value was missing or invalid when it refuses them.

use vstd::prelude::*;

use crate::hashing::utf8_bytes;

verus! {

/// The process configuration, validated and decoded.
#[derive(Debug)]
pub struct Config {
    pub database_url: String,
    pub database_pool_size: u32,
    pub host_address: String,
    pub admin_password_hash: String,
    pub admin_login_expires_after_seconds: u64,
}

/// The mathematical content of a configuration.
#[verifier::ext_equal]
pub struct ConfigModel {
    pub database_url: Seq<char>,
    pub database_pool_size: u32,
    pub host_address: Seq<char>,
    pub admin_password_hash: Seq<char>,
    pub admin_login_expires_after_seconds: u64,
}

impl View for Config {
    type V = ConfigModel;

    open spec fn view(&self) -> ConfigModel {
        ConfigModel {
            database_url: self.database_url@,
            database_pool_size: self.database_pool_size,
            host_address: self.host_address@,
            admin_password_hash: self.admin_password_hash@,
            admin_login_expires_after_seconds: self.admin_login_expires_after_seconds,
        }
    }
}

/// The configuration values the process consumes.
#[derive(Clone, Copy, PartialEq, Eq, Structural, Debug)]
pub enum ConfigKey {
    DatabaseUrl,
    DatabasePoolSize,
    HostAddress,
    AdminPasswordHash,
    AdminLoginExpiresAfterSeconds,
}

/// Why a configuration was refused: a value was absent, or present but
/// undecodable.  Either is fatal at startup; nothing here is a runtime
/// error.
#[derive(Clone, Copy, PartialEq, Eq, Structural, Debug)]
pub enum ConfigError {
    Missing(ConfigKey),
    Invalid(ConfigKey),
}

/// The raw environment values, exactly as the process found them:
/// `None` for an unset variable, the verbatim string otherwise.
pub struct RawConfig {
    pub database_url: Option<String>,
    pub database_pool_size: Option<String>,
    pub host_address: Option<String>,
    pub admin_password_hash: Option<String>,
    pub admin_login_expires_after_seconds: Option<String>,
}

/// An ASCII decimal digit.
pub open spec fn is_digit(b: u8) -> bool {
    '0' as u8 <= b && b <= '9' as u8
}

/// The integer a digit string denotes, read left to right.
pub open spec fn digits_value(digits: Seq<u8>) -> int
    decreases digits.len(),
{
    if digits.len() == 0 {
        0
    } else {
        digits_value(digits.drop_last()) * 10 + (digits.last() - ('0' as u8))
    }
}

/// The digits of a decimal numeral: what remains after an optional
/// leading plus sign.
pub open spec fn numeral_digits(s: Seq<u8>) -> Seq<u8> {
    if s.len() >= 1 && s[0] == '+' as u8 {
        s.drop_first()
    } else {
        s
    }
}

/// What parsing an unsigned 64-bit decimal numeral yields: an optional
/// leading plus sign, then at least one digit and nothing else, denoting
/// a value that fits.
pub open spec fn parsed_u64(s: Seq<u8>) -> Option<u64> {
    let digits = numeral_digits(s);
    if digits.len() == 0 {
        None
    } else if exists|i: int| 0 <= i < digits.len() && !is_digit(#[trigger] digits[i]) {
        None
    } else if digits_value(digits) > u64::MAX {
        None
    } else {
        Some(digits_value(digits) as u64)
    }
}

/// What parsing an unsigned 32-bit decimal numeral yields.
pub open spec fn parsed_u32(s: Seq<u8>) -> Option<u32> {
    match parsed_u64(s) {
        Some(value) => if value <= u32::MAX {
            Some(value as u32)
        } else {
            None
        },
        None => None,
    }
}

proof fn lemma_digits_value_step(digits: Seq<u8>, i: int)
    requires
        0 <= i < digits.len(),
    ensures
        digits_value(digits.take(i + 1)) == digits_value(digits.take(i)) * 10 + (digits[i] - (
        '0' as u8)),
    decreases digits.len(),
{
    assert(digits.take(i + 1).drop_last() =~= digits.take(i));
    assert(digits.take(i + 1).last() == digits[i]);
}

proof fn lemma_digits_value_grows(digits: Seq<u8>, i: int, j: int)
    requires
        0 <= i <= j <= digits.len(),
        digits_value(digits.take(i)) >= 0,
        forall|k: int| i <= k < j ==> is_digit(#[trigger] digits[k]),
    ensures
        digits_value(digits.take(j)) >= digits_value(digits.take(i)),
    decreases j - i,
{
    if i < j {
        lemma_digits_value_step(digits, i);
        lemma_digits_value_grows(digits, i + 1, j);
    }
}

/// Parse the digits of a numeral, left to right, refusing any non-digit
/// and any value that does not fit in a `u64`.
fn parse_digits_u64(digits: &[u8]) -> (value: Option<u64>)
    ensures
        match value {
            Some(v) => {
                &&& digits@.len() > 0
                &&& forall|i: int| 0 <= i < digits@.len() ==> is_digit(#[trigger] digits@[i])
                &&& digits_value(digits@) == v as int
            },
            None => {
                ||| digits@.len() == 0
                ||| exists|i: int| 0 <= i < digits@.len() && !is_digit(#[trigger] digits@[i])
                ||| digits_value(digits@) > u64::MAX
            },
        },
{
    let n = digits.len();
    if n == 0 {
        return None;
    }
    let mut value: u64 = 0;
    let mut i: usize = 0;
    proof {
        assert(digits@.take(0) =~= Seq::<u8>::empty());
    }
    while i < n
        invariant
            0 <= i <= n,
            n == digits@.len(),
            forall|j: int| 0 <= j < i ==> is_digit(#[trigger] digits@[j]),
            digits_value(digits@.take(i as int)) == value as int,
        decreases n - i,
    {
        let b = digits[i];
        if !(48 <= b && b <= 57) {
            return None;
        }
        let d: u64 = (b - 48) as u64;
        proof {
            lemma_digits_value_step(digits@, i as int);
        }
        if value > (u64::MAX - d) / 10 {
            proof {
                assert(digits_value(digits@.take(i as int + 1)) > u64::MAX);
                if exists|k: int| 0 <= k < digits@.len() && !is_digit(#[trigger] digits@[k]) {
                } else {
                    lemma_digits_value_grows(digits@, i as int + 1, digits@.len() as int);
                    assert(digits@.take(digits@.len() as int) =~= digits@);
                }
            }
            return None;
        }
        value = value * 10 + d;
        i += 1;
    }
    proof {
        assert(digits@.take(n as int) =~= digits@);
    }
    Some(value)
}

/// Parse an unsigned 64-bit decimal numeral: an optional leading plus
/// sign, then digits.
pub fn parse_u64(s: &str) -> (value: Option<u64>)
    ensures
        value == parsed_u64(utf8_bytes(s@)),
{
    let bytes = s.as_bytes();
    let digits = if bytes.len() >= 1 && bytes[0] == 43 {
        vstd::slice::slice_subrange(bytes, 1, bytes.len())
    } else {
        bytes
    };
    proof {
        assert(digits@ =~= numeral_digits(utf8_bytes(s@)));
    }
    parse_digits_u64(digits)
}

/// Parse an unsigned 32-bit decimal numeral: an optional leading plus
/// sign, then digits.
pub fn parse_u32(s: &str) -> (value: Option<u32>)
    ensures
        value == parsed_u32(utf8_bytes(s@)),
{
    match parse_u64(s) {
        Some(wide) => {
            if wide <= 0xFFFF_FFFF {
                Some(wide as u32)
            } else {
                None
            }
        },
        None => None,
    }
}

/// What base64 decoding with the URL-safe alphabet and no padding yields,
/// if the input is well-formed.  The admin password hash arrives in this
/// transport encoding.
pub uninterp spec fn b64_url_nopad_decoded(encoded: Seq<u8>) -> Option<Seq<u8>>;

/// Relies on base64's `Engine::decode` with the `URL_SAFE_NO_PAD` engine:
/// the URL-safe alphabet without padding.  The result is a function of
/// the input bytes alone.
#[verifier::external_body]
fn base64_url_nopad_decode(encoded: &[u8]) -> (decoded: Option<Vec<u8>>)
    ensures
        match decoded {
            Some(bytes) => b64_url_nopad_decoded(encoded@) == Some(bytes@),
            None => b64_url_nopad_decoded(encoded@) is None,
        },
{
    base64::Engine::decode(&base64::engine::general_purpose::URL_SAFE_NO_PAD, encoded).ok()
}

/// The characters `String::from_utf8_lossy` reads out of a byte string,
/// with ill-formed sequences replaced; a function of the bytes alone.
pub uninterp spec fn utf8_lossy(bytes: Seq<u8>) -> Seq<char>;

/// Relies on std's `String::from_utf8_lossy`, which vstd gives no
/// specification: the bytes read as UTF-8, ill-formed sequences replaced.
#[verifier::external_body]
fn bytes_to_string_lossy(bytes: &[u8]) -> (decoded: String)
    ensures
        decoded@ == utf8_lossy(bytes@),
{
    String::from_utf8_lossy(bytes).into_owned()
}

/// The configuration that a set of raw environment values denotes, or the
/// first value, in reading order, that is missing or invalid.
pub open spec fn load_result(raw: &RawConfig) -> Result<ConfigModel, ConfigError> {
    match raw.database_url {
        None => Err(ConfigError::Missing(ConfigKey::DatabaseUrl)),
        Some(database_url) => match raw.database_pool_size {
            None => Err(ConfigError::Missing(ConfigKey::DatabasePoolSize)),
            Some(pool_text) => match parsed_u32(utf8_bytes(pool_text@)) {
                None => Err(ConfigError::Invalid(ConfigKey::DatabasePoolSize)),
                Some(database_pool_size) => match raw.host_address {
                    None => Err(ConfigError::Missing(ConfigKey::HostAddress)),
                    Some(host_address) => match raw.admin_password_hash {
                        None => Err(ConfigError::Missing(ConfigKey::AdminPasswordHash)),
                        Some(hash_text) => match b64_url_nopad_decoded(utf8_bytes(hash_text@)) {
                            None => Err(ConfigError::Invalid(ConfigKey::AdminPasswordHash)),
                            Some(hash_bytes) => match raw.admin_login_expires_after_seconds {
                                None => Err(
                                    ConfigError::Missing(ConfigKey::AdminLoginExpiresAfterSeconds),
                                ),
                                Some(ttl_text) => match parsed_u64(utf8_bytes(ttl_text@)) {
                                    None => Err(
                                        ConfigError::Invalid(
                                            ConfigKey::AdminLoginExpiresAfterSeconds,
                                        ),
                                    ),
                                    Some(admin_login_expires_after_seconds) => Ok(
                                        ConfigModel {
                                            database_url: database_url@,
                                            database_pool_size,
                                            host_address: host_address@,
                                            admin_password_hash: utf8_lossy(hash_bytes),
                                            admin_login_expires_after_seconds,
                                        },
                                    ),
                                },
                            },
                        },
                    },
                },
            },
        },
    }
}

/// Validate and decode the raw environment values into a configuration:
/// every value must be present, the pool size and the login time-to-live
/// must be decimal numerals, and the admin password hash must carry its
/// base64 transport encoding.  The first offending value, in reading
/// order, is reported.
pub fn load(raw: &RawConfig) -> (config: Result<Config, ConfigError>)
    ensures
        match config {
            Ok(c) => load_result(raw) == Ok::<ConfigModel, ConfigError>(c@),
            Err(e) => load_result(raw) == Err::<ConfigModel, ConfigError>(e),
        },
{
    let database_url = match &raw.database_url {
        None => {
            return Err(ConfigError::Missing(ConfigKey::DatabaseUrl));
        },
        Some(url) => url.clone(),
    };
    let pool_text = match &raw.database_pool_size {
        None => {
            return Err(ConfigError::Missing(ConfigKey::DatabasePoolSize));
        },
        Some(text) => text,
    };
    let database_pool_size = match parse_u32(pool_text.as_str()) {
        None => {
            return Err(ConfigError::Invalid(ConfigKey::DatabasePoolSize));
        },
        Some(size) => size,
    };
    let host_address = match &raw.host_address {
        None => {
            return Err(ConfigError::Missing(ConfigKey::HostAddress));
        },
        Some(host) => host.clone(),
    };
    let hash_text = match &raw.admin_password_hash {
        None => {
            return Err(ConfigError::Missing(ConfigKey::AdminPasswordHash));
        },
        Some(text) => text,
    };
    let hash_bytes = match base64_url_nopad_decode(hash_text.as_str().as_bytes()) {
        None => {
            return Err(ConfigError::Invalid(ConfigKey::AdminPasswordHash));
        },
        Some(bytes) => bytes,
    };
    let admin_password_hash = bytes_to_string_lossy(hash_bytes.as_slice());
    let ttl_text = match &raw.admin_login_expires_after_seconds {
        None => {
            return Err(ConfigError::Missing(ConfigKey::AdminLoginExpiresAfterSeconds));
        },
        Some(text) => text,
    };
    let admin_login_expires_after_seconds = match parse_u64(ttl_text.as_str()) {
        None => {
            return Err(ConfigError::Invalid(ConfigKey::AdminLoginExpiresAfterSeconds));
        },
        Some(seconds) => seconds,
    };
    Ok(
        Config {
            database_url,
            database_pool_size,
            host_address,
            admin_password_hash,
            admin_login_expires_after_seconds,
        },
    )
}

} // verus!
