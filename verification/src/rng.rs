//! The one source of randomness: an index drawn below a bound.
use vstd::prelude::*;

verus! {

/// Relies on `rand::random_range` over `0..n`: the draw comes from the
/// thread's generator, so nothing is promised beyond the bound.
#[verifier::external_body]
pub fn random_below(n: usize) -> (r: usize)
    requires
        n > 0,
    ensures
        r < n,
{
    rand::random_range(0..n)
}

} // verus!
