//! High-entropy secret generation over the alphanumeric alphabet.

use vstd::prelude::*;

verus! {

/// Length of a dashboard session secret.  Session secrets are checked on
/// every authenticated request, so they favor unguessability.
pub const DASHBOARD_SESSION_SECRET_LENGTH: usize = 96;

/// Length of a platform API key.  API keys are long-lived and shown
/// exactly once.
pub const PLATFORM_API_KEY_LENGTH: usize = 69;

/// The 62-symbol alphanumeric alphabet secrets are drawn from.
pub open spec fn is_alphanumeric_char(c: char) -> bool {
    ('a' <= c && c <= 'z') || ('A' <= c && c <= 'Z') || ('0' <= c && c <= '9')
}

/// Every character of the string is alphanumeric.
pub open spec fn all_alphanumeric(s: Seq<char>) -> bool {
    forall|i: int| 0 <= i < s.len() ==> is_alphanumeric_char(#[trigger] s[i])
}

/// Relies on rand's `Alphanumeric::sample_string` driven by `rand::rng()`,
/// a cryptographically secure generator: it appends exactly `length`
/// characters, each drawn uniformly from the 62 ASCII alphanumeric
/// symbols, to an empty string.
#[verifier::external_body]
fn sample_alphanumeric(length: usize) -> (secret: String)
    ensures
        secret@.len() == length as nat,
        all_alphanumeric(secret@),
        secret.is_ascii(),
{
    rand::distr::SampleString::sample_string(&rand::distr::Alphanumeric, &mut rand::rng(), length)
}

/// Draw a fresh secret of exactly `length` alphanumeric characters from a
/// cryptographically secure random source.
pub fn generate_secret(length: usize) -> (secret: String)
    ensures
        secret@.len() == length as nat,
        all_alphanumeric(secret@),
        secret.is_ascii(),
{
    sample_alphanumeric(length)
}

/// An ASCII string's UTF-8 encoding is one byte per character, so an
/// alphanumeric secret of `n` characters hashes as `n` bytes.
pub proof fn lemma_ascii_utf8_len(s: Seq<char>)
    requires
        vstd::utf8::is_ascii_chars(s),
    ensures
        crate::hashing::utf8_bytes(s).len() == s.len(),
{
    vstd::utf8::is_ascii_chars_encode_utf8(s);
}

} // verus!
