//! The library's only source of randomness: a thin trusted wrapper over the
//! `rand` crate. Verified code treats each draw as an arbitrary value below
//! the given bound.

use vstd::prelude::*;

verus! {

/// Relies on `rand::Rng::gen_range` over the half-open range `0..n`, on the
/// generator `rand::thread_rng` hands out: the draw always lies in that
/// range (and the range is non-empty, so the call cannot panic). Nothing
/// more is assumed of the value.
#[verifier::external_body]
pub(crate) fn random_below(n: usize) -> (r: usize)
    requires
        n >= 1,
    ensures
        r < n,
{
    rand::Rng::gen_range(&mut rand::thread_rng(), 0..n)
}

} // verus!
