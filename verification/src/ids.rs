//! Row identifiers.
//!
//! Stored rows are keyed by 128-bit identifiers drawn as version-7 UUIDs.
//! Nothing is assumed about the drawn value — uniqueness is enforced by
//! the stores themselves, which refuse a duplicate.

use vstd::prelude::*;

verus! {

/// Relies on uuid's `Uuid::now_v7`: a fresh version-7 UUID built from the
/// system clock and secure random bits, carried as its 128-bit value.  The
/// value depends on the clock and the random source, so nothing is
/// promised of it.  A system clock reading before the Unix epoch makes
/// the call panic — an environmental failure, like running out of
/// memory.
#[verifier::external_body]
pub(crate) fn new_row_id() -> u128 {
    uuid::Uuid::now_v7().as_u128()
}

} // verus!
