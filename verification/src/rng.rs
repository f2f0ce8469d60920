//! The crate's single source of randomness.

use vstd::prelude::*;

verus! {

/// Relies on rand::random_range: returns a value drawn uniformly from the
/// given non-empty range using the thread-local generator. Nothing more is
/// assumed of the outcome than its bound; the range `0..n` is non-empty
/// because `n > 0` is required (an empty range would panic).
#[verifier::external_body]
pub(crate) fn random_below(n: u64) -> (r: u64)
    requires
        n > 0,
    ensures
        r < n,
{
    rand::random_range(0..n)
}

} // verus!
