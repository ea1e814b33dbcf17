//! Randomness, behind trusted wrappers. Nothing is assumed of a draw beyond
//! its range, and for a weighted coin the two degenerate weights that the
//! `rand` crate documents as certain.

use vstd::prelude::*;

verus! {

/// Relies on `rand::random_range` over `0..n`: a uniform draw below `n`.
/// The range must be non-empty, or the call panics.
#[verifier::external_body]
pub(crate) fn rand_below(n: u32) -> (r: u32)
    requires
        n >= 1,
    ensures
        r < n,
{
    rand::random_range(0..n)
}

/// Relies on `rand::random_range` over `0..n`: a uniform draw below `n`.
/// The range must be non-empty, or the call panics.
#[verifier::external_body]
pub(crate) fn rand_below_usize(n: usize) -> (r: usize)
    requires
        n >= 1,
    ensures
        r < n,
{
    rand::random_range(0..n)
}

/// Relies on `rand::random_ratio`: true with probability `num/den`. It
/// panics when `den == 0` or `num > den`, is documented to be always false
/// when `num == 0`, and always true when `num == den`.
#[verifier::external_body]
pub(crate) fn rand_ratio(num: u32, den: u32) -> (r: bool)
    requires
        den >= 1,
        num <= den,
    ensures
        num == 0 ==> !r,
        num == den ==> r,
{
    rand::random_ratio(num, den)
}

} // verus!
