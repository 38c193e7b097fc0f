//! Randomness as a thin capability: a single uniform draw from an
//! inclusive range, backed by the process-wide generator.

use vstd::prelude::*;

verus! {

/// Relies on rand::random_range: the draw from a nonempty inclusive range
/// is within that range. Nothing more is assumed of the value.
#[verifier::external_body]
pub(crate) fn rand_inclusive(lo: u16, hi: u16) -> (r: u16)
    requires
        lo <= hi,
    ensures
        lo <= r && r <= hi,
{
    rand::random_range(lo..=hi)
}

} // verus!
