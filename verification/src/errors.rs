//! Failure taxonomy.
//!
//! Authentication failures carry an internal reason so the guards can be
//! reasoned about precisely, but every reason collapses to the single
//! externally visible `Unauthorized` outcome at the guard boundary, so
//! that no failure-shape side channel reaches a client.  Store failures
//! are a separate, infrastructure-level category and are never folded
//! into "unauthorized".

use vstd::prelude::*;

verus! {

/// Why a store write was refused.  This is an infrastructure error,
/// distinct from any authentication outcome: callers surface it as a
/// request failure, never as a credential rejection.
#[derive(Clone, Copy, PartialEq, Eq, Structural, Debug)]
pub enum StoreError {
    /// The freshly drawn row identifier is already present.
    DuplicateId,
}

/// The internal reasons an authentication attempt is rejected.
#[derive(Clone, Copy, PartialEq, Eq, Structural, Debug)]
pub enum AuthRejection {
    /// No credential accompanied the request.
    MissingCredential,
    /// The header, cookie or principal identifier could not be parsed.
    MalformedCredential,
    /// No principal exists under the presented identifier.
    UnknownPrincipal,
    /// The presented secret does not verify against the stored hash.
    InvalidSecret,
    /// The credential was valid once but its time-to-live has elapsed.
    Expired,
}

/// The single externally visible rejection.  Every `AuthRejection` maps
/// here, so callers cannot distinguish why a credential was refused.
#[derive(Clone, Copy, PartialEq, Eq, Structural, Debug)]
pub struct Unauthorized;

/// Collapse an internal rejection reason to the uniform outward outcome.
pub fn collapse_rejection(reason: AuthRejection) -> (outcome: Unauthorized)
    ensures
        outcome == Unauthorized,
{
    Unauthorized
}

} // verus!
