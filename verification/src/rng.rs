//! The library's only source of randomness: a uniform draw from a half-open
//! integer range, taken from the thread-local generator of the `rand` crate.

use vstd::prelude::*;
use rand::RngExt;

verus! {

/// Relies on `rand::rng` and `rand::RngExt::random_range`: a draw from
/// `lo..hi` lies in that half-open range (it panics on an empty range, which
/// the precondition rules out). The draw is random, so nothing else is
/// assumed of the result.
#[verifier::external_body]
pub fn rand_range_i64(lo: i64, hi: i64) -> (r: i64)
    requires
        lo < hi,
    ensures
        lo <= r < hi,
{
    rand::rng().random_range(lo..hi)
}

} // verus!
