//! The library's single trusted boundary: random integers.

use vstd::prelude::*;

verus! {

/// Relies on `rand::random_range` over a `Range<i64>`: it returns a value
/// uniformly drawn from `[lo, hi)` and panics only on an empty range,
/// which the precondition rules out.  Nothing more is assumed of the
/// draw: callers must hold for every value in the range.
#[verifier::external_body]
pub(crate) fn random_in_range(lo: i64, hi: i64) -> (r: i64)
    requires
        lo < hi,
    ensures
        lo <= r < hi,
{
    rand::random_range(lo..hi)
}

} // verus!
