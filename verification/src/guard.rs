//! Request-time authentication guards.
//!
//! Both guards share one contract: extract a credential from raw request
//! data, verify it against the appropriate store, and yield either an
//! authenticated principal or a rejection.  Internally every branch
//! produces one of the taxonomy's reasons; at the outermost boundary they
//! all collapse to the single `Unauthorized` outcome, so a client cannot
//! probe which step failed.  The caller performs whatever follows a
//! rejection (an error status for machine clients, a redirect to the
//! login entry point for the browser-facing dashboard).

use vstd::prelude::*;

use crate::errors::{collapse_rejection, AuthRejection, Unauthorized};
use crate::hashing::{check_key_bytes_against_hash, hash_verifies, utf8_bytes};
use crate::platforms::{find_platform, Platform, PlatformModel, PlatformStore};
use crate::session::{
    is_live, token_index, token_live, DashboardSessionLoginTokenData, TokenModel, TokenStore,
};
use vstd::slice::{slice_subrange, slice_to_vec};
use vstd::string::StringSliceAdditionalSpecFns;

verus! {

/// A platform authenticated by the platform guard.
#[derive(Debug)]
pub struct AuthedPlatform(pub Platform);

/// What base64 decoding with the standard alphabet and mandatory padding
/// yields, if the input is well-formed.
pub uninterp spec fn b64_standard_decoded(encoded: Seq<u8>) -> Option<Seq<u8>>;

/// Relies on base64's `Engine::decode` with the `STANDARD` engine — the
/// standard alphabet with mandatory padding, as Basic authentication uses.
/// The result is a function of the input bytes alone.
#[verifier::external_body]
fn base64_standard_decode(encoded: &[u8]) -> (decoded: Option<Vec<u8>>)
    ensures
        match decoded {
            Some(bytes) => b64_standard_decoded(encoded@) == Some(bytes@),
            None => b64_standard_decoded(encoded@) is None,
        },
{
    base64::Engine::decode(&base64::engine::general_purpose::STANDARD, encoded).ok()
}

/// The 128-bit value of a textual UUID, if the bytes are UTF-8 and parse
/// as one.
pub uninterp spec fn uuid_of_bytes(bytes: Seq<u8>) -> Option<u128>;

/// Relies on uuid's `Uuid::parse_str`, applied to the bytes read as UTF-8:
/// the parsed 128-bit value, a function of the input bytes alone.
#[verifier::external_body]
fn parse_uuid_bytes(bytes: &[u8]) -> (id: Option<u128>)
    ensures
        match id {
            Some(value) => uuid_of_bytes(bytes@) == Some(value),
            None => uuid_of_bytes(bytes@) is None,
        },
{
    core::str::from_utf8(bytes).ok().and_then(|s| uuid::Uuid::parse_str(s).ok()).map(
        |u| u.as_u128(),
    )
}

/// The header opens with the Basic authentication scheme marker: the
/// scheme name compared ASCII-case-insensitively, as HTTP requires, then
/// one space.
pub open spec fn has_basic_prefix(header: Seq<u8>) -> bool {
    &&& header.len() >= 6
    &&& (header[0] == 'B' as u8 || header[0] == 'b' as u8)
    &&& (header[1] == 'A' as u8 || header[1] == 'a' as u8)
    &&& (header[2] == 'S' as u8 || header[2] == 's' as u8)
    &&& (header[3] == 'I' as u8 || header[3] == 'i' as u8)
    &&& (header[4] == 'C' as u8 || header[4] == 'c' as u8)
    &&& header[5] == ' ' as u8
}

/// A byte string with its leading spaces removed; the scheme marker's
/// space may be followed by more before the encoded credential.
pub open spec fn leading_spaces_dropped(bytes: Seq<u8>) -> Seq<u8>
    decreases bytes.len(),
{
    if bytes.len() == 0 {
        bytes
    } else if bytes[0] == ' ' as u8 {
        leading_spaces_dropped(bytes.drop_first())
    } else {
        bytes
    }
}

proof fn lemma_leading_spaces_dropped(bytes: Seq<u8>, s: int)
    requires
        0 <= s <= bytes.len(),
        forall|j: int| 0 <= j < s ==> bytes[j] == ' ' as u8,
        s == bytes.len() || bytes[s] != ' ' as u8,
    ensures
        leading_spaces_dropped(bytes) =~= bytes.skip(s),
    decreases s,
{
    if s == 0 {
        assert(bytes.skip(0) =~= bytes);
    } else {
        let rest = bytes.drop_first();
        assert(forall|j: int| 0 <= j < rest.len() ==> #[trigger] rest[j] == bytes[j + 1]);
        lemma_leading_spaces_dropped(rest, s - 1);
        assert(rest.skip(s - 1) =~= bytes.skip(s));
    }
}

/// Split a byte string at its first colon: everything before it and
/// everything after it, or nothing when it holds no colon.
pub open spec fn split_first_colon(bytes: Seq<u8>) -> Option<(Seq<u8>, Seq<u8>)>
    decreases bytes.len(),
{
    if bytes.len() == 0 {
        None
    } else if bytes[0] == ':' as u8 {
        Some((Seq::empty(), bytes.drop_first()))
    } else {
        match split_first_colon(bytes.drop_first()) {
            Some(pair) => Some((seq![bytes[0]] + pair.0, pair.1)),
            None => None,
        }
    }
}

proof fn lemma_split_no_colon(bytes: Seq<u8>)
    requires
        forall|j: int| 0 <= j < bytes.len() ==> bytes[j] != ':' as u8,
    ensures
        split_first_colon(bytes) is None,
    decreases bytes.len(),
{
    if bytes.len() > 0 {
        assert(forall|j: int|
            0 <= j < bytes.drop_first().len() ==> #[trigger] bytes.drop_first()[j] == bytes[
                j + 1
            ]);
        lemma_split_no_colon(bytes.drop_first());
    }
}

proof fn lemma_split_at_colon(bytes: Seq<u8>, k: int)
    requires
        0 <= k < bytes.len(),
        bytes[k] == ':' as u8,
        forall|j: int| 0 <= j < k ==> bytes[j] != ':' as u8,
    ensures
        split_first_colon(bytes) == Some(
            (bytes.subrange(0, k), bytes.subrange(k + 1, bytes.len() as int)),
        ),
    decreases k,
{
    if k == 0 {
        assert(bytes.subrange(0, 0) =~= Seq::<u8>::empty());
        assert(bytes.subrange(1, bytes.len() as int) =~= bytes.drop_first());
    } else {
        let rest = bytes.drop_first();
        assert(forall|j: int| 0 <= j < rest.len() ==> #[trigger] rest[j] == bytes[j + 1]);
        lemma_split_at_colon(rest, k - 1);
        assert(bytes.subrange(0, k) =~= seq![bytes[0]] + rest.subrange(0, k - 1));
        assert(bytes.subrange(k + 1, bytes.len() as int) =~= rest.subrange(k, rest.len() as int));
    }
}

/// Split a Basic credential payload at its first colon.
fn split_at_first_colon(bytes: &[u8]) -> (parts: Option<(Vec<u8>, Vec<u8>)>)
    ensures
        match parts {
            Some(pair) => split_first_colon(bytes@) == Some((pair.0@, pair.1@)),
            None => split_first_colon(bytes@) is None,
        },
{
    let n = bytes.len();
    let mut k: usize = 0;
    while k < n
        invariant
            0 <= k <= n,
            n == bytes@.len(),
            forall|j: int| 0 <= j < k ==> bytes@[j] != ':' as u8,
        decreases n - k,
    {
        if bytes[k] == ':' as u8 {
            let before = slice_to_vec(slice_subrange(bytes, 0, k));
            let after = slice_to_vec(slice_subrange(bytes, k + 1, n));
            proof {
                lemma_split_at_colon(bytes@, k as int);
            }
            return Some((before, after));
        }
        k += 1;
    }
    proof {
        lemma_split_no_colon(bytes@);
    }
    None
}

/// The `(identifier bytes, key bytes)` carried by a well-formed Basic
/// authentication header, or nothing when the header is malformed.
pub open spec fn parsed_basic_credential(header: Seq<u8>) -> Option<(Seq<u8>, Seq<u8>)> {
    if has_basic_prefix(header) {
        match b64_standard_decoded(leading_spaces_dropped(header.skip(6))) {
            Some(decoded) => split_first_colon(decoded),
            None => None,
        }
    } else {
        None
    }
}

/// The UTF-8 bytes of the Authorization header, if one came with the
/// request.
pub open spec fn header_bytes(authorization_header: Option<&str>) -> Option<Seq<u8>> {
    match authorization_header {
        Some(header) => Some(header.spec_bytes()),
        None => None,
    }
}

/// The `(platform identifier, key bytes)` a request presents, or the
/// reason its credential is refused before any store is consulted.
pub open spec fn platform_credential_of(
    header: Option<Seq<u8>>,
) -> Result<(u128, Seq<u8>), AuthRejection> {
    match header {
        None => Err(AuthRejection::MissingCredential),
        Some(h) => match parsed_basic_credential(h) {
            None => Err(AuthRejection::MalformedCredential),
            Some(credential) => match uuid_of_bytes(credential.0) {
                None => Err(AuthRejection::MalformedCredential),
                Some(id) => Ok((id, credential.1)),
            },
        },
    }
}

/// The platform identifier and raw API key presented by a request.
pub struct PlatformCredential {
    pub platform_id: u128,
    pub api_key: Vec<u8>,
}

/// Extract the platform credential from the Authorization header: the
/// header must carry Basic authentication whose username parses as a
/// platform identifier; the password bytes are the raw API key.  This is
/// the store-independent half of the platform guard, for callers that
/// fetch the platform row themselves.
pub fn parse_platform_credential(authorization_header: Option<&str>) -> (credential: Result<
    PlatformCredential,
    AuthRejection,
>)
    ensures
        match credential {
            Ok(c) => platform_credential_of(header_bytes(authorization_header)) == Ok::<
                (u128, Seq<u8>),
                AuthRejection,
            >((c.platform_id, c.api_key@)),
            Err(reason) => platform_credential_of(header_bytes(authorization_header)) == Err::<
                (u128, Seq<u8>),
                AuthRejection,
            >(reason),
        },
{
    let header = match authorization_header {
        None => {
            return Err(AuthRejection::MissingCredential);
        },
        Some(header) => header,
    };
    let bytes = header.as_bytes();
    let n = bytes.len();
    if !(n >= 6 && (bytes[0] == 'B' as u8 || bytes[0] == 'b' as u8) && (bytes[1] == 'A' as u8
        || bytes[1] == 'a' as u8) && (bytes[2] == 'S' as u8 || bytes[2] == 's' as u8) && (bytes[3]
        == 'I' as u8 || bytes[3] == 'i' as u8) && (bytes[4] == 'C' as u8 || bytes[4] == 'c' as u8)
        && bytes[5] == ' ' as u8) {
        return Err(AuthRejection::MalformedCredential);
    }
    let mut start: usize = 6;
    while start < n && bytes[start] == ' ' as u8
        invariant
            6 <= start <= n,
            n == bytes@.len(),
            forall|j: int| 6 <= j < start ==> bytes@[j] == ' ' as u8,
        decreases n - start,
    {
        start += 1;
    }
    let payload = slice_subrange(bytes, start, n);
    proof {
        let after_marker = bytes@.skip(6);
        assert(forall|j: int|
            0 <= j < after_marker.len() ==> #[trigger] after_marker[j] == bytes@[j + 6]);
        lemma_leading_spaces_dropped(after_marker, start as int - 6);
        assert(after_marker.skip(start as int - 6) =~= bytes@.skip(start as int));
        assert(payload@ =~= leading_spaces_dropped(header.spec_bytes().skip(6)));
    }
    let decoded = match base64_standard_decode(payload) {
        None => {
            return Err(AuthRejection::MalformedCredential);
        },
        Some(decoded) => decoded,
    };
    let (user, key) = match split_at_first_colon(decoded.as_slice()) {
        None => {
            return Err(AuthRejection::MalformedCredential);
        },
        Some(pair) => pair,
    };
    match parse_uuid_bytes(user.as_slice()) {
        None => Err(AuthRejection::MalformedCredential),
        Some(id) => Ok(PlatformCredential { platform_id: id, api_key: key }),
    }
}

/// The platform guard's decision, as a function of the stored platform
/// rows and the raw Authorization header: which principal is
/// authenticated, or for which of the taxonomy's reasons the request is
/// rejected.
pub open spec fn platform_auth_decision(
    rows: Seq<PlatformModel>,
    header: Option<Seq<u8>>,
) -> Result<PlatformModel, AuthRejection> {
    match platform_credential_of(header) {
        Err(reason) => Err(reason),
        Ok(credential) => match find_platform(rows, credential.0) {
            None => Err(AuthRejection::UnknownPrincipal),
            Some(platform) => if hash_verifies(credential.1, platform.api_key_hash) {
                Ok(platform)
            } else {
                Err(AuthRejection::InvalidSecret)
            },
        },
    }
}

/// Authenticate a platform from its Authorization header: the header must
/// carry Basic authentication whose username parses as a platform
/// identifier and whose password is the raw API key.  The outcome is
/// exactly the guard's decision function; rejection reasons are internal
/// and collapse at the boundary (`guard_platform_request`).
pub fn authenticate_platform(store: &PlatformStore, authorization_header: Option<&str>) -> (outcome:
    Result<AuthedPlatform, AuthRejection>)
    ensures
        match outcome {
            Ok(authed) => platform_auth_decision(store@, header_bytes(authorization_header))
                == Ok::<PlatformModel, AuthRejection>(authed.0@),
            Err(reason) => platform_auth_decision(store@, header_bytes(authorization_header))
                == Err::<PlatformModel, AuthRejection>(reason),
        },
{
    let credential = match parse_platform_credential(authorization_header) {
        Err(reason) => {
            return Err(reason);
        },
        Ok(credential) => credential,
    };
    let platform = match store.get_platform(credential.platform_id) {
        None => {
            return Err(AuthRejection::UnknownPrincipal);
        },
        Some(platform) => platform,
    };
    if check_key_bytes_against_hash(credential.api_key.as_slice(), platform.api_key_hash.as_str())
        {
        Ok(AuthedPlatform(platform))
    } else {
        Err(AuthRejection::InvalidSecret)
    }
}

/// The platform guard at the outermost boundary: every internal rejection
/// reason collapses to the one `Unauthorized` outcome.
pub fn guard_platform_request(store: &PlatformStore, authorization_header: Option<&str>) -> (outcome:
    Result<AuthedPlatform, Unauthorized>)
    ensures
        match outcome {
            Ok(authed) => platform_auth_decision(store@, header_bytes(authorization_header))
                == Ok::<PlatformModel, AuthRejection>(authed.0@),
            Err(_) => platform_auth_decision(store@, header_bytes(authorization_header)) is Err,
        },
{
    match authenticate_platform(store, authorization_header) {
        Ok(authed) => Ok(authed),
        Err(reason) => Err(collapse_rejection(reason)),
    }
}

/// The credential carried by the dashboard session cookie, if the request
/// brought a decodable one.
pub open spec fn session_credential(
    session_data: Option<&DashboardSessionLoginTokenData>,
) -> Option<(u128, Seq<u8>)> {
    match session_data {
        Some(data) => Some((data.id, utf8_bytes(data.token@))),
        None => None,
    }
}

/// The dashboard guard's decision, as a function of the stored token
/// rows, the session cookie's credential, the query time, and the
/// time-to-live.
pub open spec fn dashboard_auth_decision(
    rows: Seq<TokenModel>,
    credential: Option<(u128, Seq<u8>)>,
    now: i64,
    ttl_seconds: u64,
) -> Result<(), AuthRejection> {
    match credential {
        None => Err(AuthRejection::MissingCredential),
        Some(credential) => {
            let i = token_index(rows, credential.0);
            if i == -1 {
                Err(AuthRejection::UnknownPrincipal)
            } else if !token_live(rows[i], now, ttl_seconds) {
                Err(AuthRejection::Expired)
            } else if hash_verifies(credential.1, rows[i].token_hash) {
                Ok(())
            } else {
                Err(AuthRejection::InvalidSecret)
            }
        },
    }
}

/// Authenticate a dashboard request from its session cookie payload.  The
/// outcome is exactly the guard's decision function; the reasons are
/// internal and collapse at the boundary (`guard_dashboard_request`), so
/// an expired token is indistinguishable from an unknown one outside.
pub fn dashboard_auth_middleware(
    store: &TokenStore,
    session_data: Option<&DashboardSessionLoginTokenData>,
    now: i64,
    ttl_seconds: u64,
) -> (outcome: Result<(), AuthRejection>)
    ensures
        outcome == dashboard_auth_decision(store@, session_credential(session_data), now,
            ttl_seconds),
{
    let data = match session_data {
        None => {
            return Err(AuthRejection::MissingCredential);
        },
        Some(data) => data,
    };
    let token = match store.get_token(data.id) {
        None => {
            return Err(AuthRejection::UnknownPrincipal);
        },
        Some(token) => token,
    };
    if !is_live(token.created_at, now, ttl_seconds) {
        return Err(AuthRejection::Expired);
    }
    let profile = crate::hashing::setup_weak_argon2();
    if crate::hashing::argon2_check_key_against_hash(
        &profile,
        data.token.as_str(),
        token.token_hash.as_str(),
    ) {
        Ok(())
    } else {
        Err(AuthRejection::InvalidSecret)
    }
}

/// The dashboard guard at the outermost boundary: every internal
/// rejection reason collapses to the one `Unauthorized` outcome, on which
/// the caller redirects the browser to the login entry point.
pub fn guard_dashboard_request(
    store: &TokenStore,
    session_data: Option<&DashboardSessionLoginTokenData>,
    now: i64,
    ttl_seconds: u64,
) -> (outcome: Result<(), Unauthorized>)
    ensures
        match outcome {
            Ok(()) => dashboard_auth_decision(store@, session_credential(session_data), now,
                ttl_seconds) is Ok,
            Err(_) => dashboard_auth_decision(store@, session_credential(session_data), now,
                ttl_seconds) is Err,
        },
{
    match dashboard_auth_middleware(store, session_data, now, ttl_seconds) {
        Ok(()) => Ok(()),
        Err(reason) => Err(collapse_rejection(reason)),
    }
}

} // verus!
