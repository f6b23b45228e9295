//! Memory-hard credential hashing with two fixed cost profiles.
//!
//! Hash strings are self-describing: they embed the algorithm, version,
//! cost parameters and a fresh random salt, so verification reads every
//! parameter out of the stored hash and ignores the caller's profile.
//! Verification fails closed: a malformed stored hash is reported as a
//! mismatch, never as a crash.

use vstd::prelude::*;

verus! {

/// Cost parameters for the memory-hard password-hashing function.
///
/// Exactly two instances are supported: the weak profile, for secrets
/// whose compromise has short-lived impact (session tokens checked on
/// every request), and the strong profile, for the operator password and
/// platform API keys.
#[derive(Clone, Copy, PartialEq, Eq, Structural, Debug)]
pub struct CredentialProfile {
    pub memory_cost_kib: u32,
    pub iterations: u32,
    pub parallelism: u32,
    pub output_len: u32,
}

/// The cheap profile, for short-lived session tokens.
pub open spec fn weak_profile() -> CredentialProfile {
    CredentialProfile { memory_cost_kib: 13312, iterations: 2, parallelism: 1, output_len: 64 }
}

/// The expensive profile, for the operator password and platform API keys.
pub open spec fn strong_profile() -> CredentialProfile {
    CredentialProfile { memory_cost_kib: 19456, iterations: 3, parallelism: 2, output_len: 64 }
}

impl CredentialProfile {
    /// The profiles the hasher accepts.
    pub open spec fn is_supported(self) -> bool {
        self == weak_profile() || self == strong_profile()
    }
}

/// Set up the weak cost profile, suitable for short-lived tokens.
pub fn setup_weak_argon2() -> (profile: CredentialProfile)
    ensures
        profile == weak_profile(),
{
    CredentialProfile { memory_cost_kib: 13312, iterations: 2, parallelism: 1, output_len: 64 }
}

/// Set up the strong cost profile, suitable for the operator password and
/// long-lived platform keys.
pub fn setup_strong_argon2() -> (profile: CredentialProfile)
    ensures
        profile == strong_profile(),
{
    CredentialProfile { memory_cost_kib: 19456, iterations: 3, parallelism: 2, output_len: 64 }
}

/// The weak profile is strictly cheaper than the strong one in every cost
/// dimension that distinguishes them, so the strong profile is never the
/// cheaper one to attack.
pub proof fn lemma_weak_strictly_cheaper()
    ensures
        weak_profile().memory_cost_kib < strong_profile().memory_cost_kib,
        weak_profile().iterations < strong_profile().iterations,
        weak_profile().parallelism < strong_profile().parallelism,
        weak_profile().output_len == strong_profile().output_len,
{
}

/// The UTF-8 bytes of a string; hashing consumes a secret's bytes.
pub open spec fn utf8_bytes(s: Seq<char>) -> Seq<u8> {
    vstd::utf8::encode_utf8(s)
}

/// Whether Argon2id verification of `key` against the stored hash string
/// `hash` succeeds.  Verification is a pure function of the key's bytes and
/// the hash string, because every parameter it uses (algorithm, version,
/// costs, salt, digest) is parsed out of the hash string itself.
pub uninterp spec fn hash_verifies(key: Seq<u8>, hash: Seq<char>) -> bool;

/// Whether a stored hash string parses as a PHC-format password hash:
/// what `PasswordHash::new` returns on it, a function of the string
/// alone.  A string that does not parse verifies no key at all.
pub uninterp spec fn phc_parseable(hash: Seq<char>) -> bool;

/// Relies on argon2's `Argon2::hash_password`: it hashes the key with a
/// fresh 16-byte random salt from the system's secure RNG and renders a
/// self-describing hash string that `verify_password` accepts for the same
/// key bytes (the verifier recomputes from the embedded salt and
/// parameters, so the rendered string parses back).  `Params::new` accepts
/// both supported profiles, and the key length is capped, so no error path
/// remains.
#[verifier::external_body]
fn argon2_hash_bytes(profile: &CredentialProfile, key: &[u8]) -> (hash: String)
    requires
        profile.is_supported(),
        key@.len() <= 0xFFFF_FFFF,
    ensures
        hash_verifies(key@, hash@),
        phc_parseable(hash@),
{
    let params = argon2::Params::new(
        profile.memory_cost_kib,
        profile.iterations,
        profile.parallelism,
        Some(profile.output_len as usize),
    )
    .unwrap();
    let hasher = argon2::Argon2::new(argon2::Algorithm::Argon2id, argon2::Version::V0x13, params);
    argon2::PasswordHasher::hash_password(&hasher, key).unwrap().to_string()
}

/// Relies on argon2's `Argon2::verify_password` for hash strings: it
/// parses the stored hash, recomputes the digest with the embedded salt
/// and parameters, and compares the digests in constant time.  The
/// default instance carries no keyed secret, so the outcome depends on
/// the key bytes and the hash string alone; a stored hash the PHC parser
/// rejects fails closed, so it verifies no key.
#[verifier::external_body]
fn argon2_verify_bytes(key: &[u8], hashed_key: &str) -> (ok: bool)
    ensures
        ok == hash_verifies(key@, hashed_key@),
        ok ==> phc_parseable(hashed_key@),
{
    let verifier = argon2::Argon2::default();
    argon2::PasswordVerifier::<str>::verify_password(&verifier, key, hashed_key).is_ok()
}

/// Hash a secret under the given cost profile, salting it freshly.
pub fn argon2_hash_key(profile: &CredentialProfile, key: &str) -> (hash: String)
    requires
        profile.is_supported(),
        utf8_bytes(key@).len() <= 0xFFFF_FFFF,
    ensures
        hash_verifies(utf8_bytes(key@), hash@),
{
    argon2_hash_bytes(profile, key.as_bytes())
}

/// Check a secret against a stored hash string, failing closed: a
/// malformed stored hash or any mismatch yields `false`.  The profile is
/// documentation only at this layer; verification reads its parameters out
/// of the hash string itself.
pub fn argon2_check_key_against_hash(
    _profile: &CredentialProfile,
    key: &str,
    hashed_key: &str,
) -> (ok: bool)
    ensures
        ok == hash_verifies(utf8_bytes(key@), hashed_key@),
        ok ==> phc_parseable(hashed_key@),
{
    argon2_verify_bytes(key.as_bytes(), hashed_key)
}

/// Check a secret given directly as bytes, as the platform guard receives
/// it from the decoded Basic-authentication payload.
pub fn check_key_bytes_against_hash(key: &[u8], hashed_key: &str) -> (ok: bool)
    ensures
        ok == hash_verifies(key@, hashed_key@),
        ok ==> phc_parseable(hashed_key@),
{
    argon2_verify_bytes(key, hashed_key)
}

/// A secret always verifies against a hash freshly produced from it.
pub fn hashed_key_verifies(profile: &CredentialProfile, key: &str) -> (ok: bool)
    requires
        profile.is_supported(),
        utf8_bytes(key@).len() <= 0xFFFF_FFFF,
    ensures
        ok,
{
    let hash = argon2_hash_key(profile, key);
    argon2_check_key_against_hash(profile, key, &hash)
}

/// Hashing the same secret twice salts each hash independently, yet both
/// resulting hash strings verify against the secret.
pub fn rehash_preserves_verification(profile: &CredentialProfile, key: &str) -> (hashes: (
    String,
    String,
))
    requires
        profile.is_supported(),
        utf8_bytes(key@).len() <= 0xFFFF_FFFF,
    ensures
        hash_verifies(utf8_bytes(key@), hashes.0@),
        hash_verifies(utf8_bytes(key@), hashes.1@),
{
    let first = argon2_hash_key(profile, key);
    let second = argon2_hash_key(profile, key);
    (first, second)
}

} // verus!
