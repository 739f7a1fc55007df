//! The random draws that augmenters make, taken from `rand`.
use vstd::prelude::*;
use rand::seq::SliceRandom;

verus! {

/// Relies on `rand::random_range`: a value drawn from the half-open range
/// `lo..hi`, which must not be empty (the call panics on an empty range).
#[verifier::external_body]
pub(crate) fn random_index(lo: usize, hi: usize) -> (r: usize)
    requires
        lo < hi,
    ensures
        lo <= r < hi,
{
    rand::random_range(lo..hi)
}

/// Relies on `rand::random_ratio`: true with chance `numerator / denominator`;
/// always true when the two are equal and always false when `numerator` is 0.
/// It panics when `denominator` is 0 or below `numerator`.
#[verifier::external_body]
pub(crate) fn random_ratio(numerator: u32, denominator: u32) -> (r: bool)
    requires
        0 < denominator,
        numerator <= denominator,
    ensures
        numerator == denominator ==> r,
        numerator == 0 ==> !r,
{
    rand::random_ratio(numerator, denominator)
}

/// Relies on `rand::seq::SliceRandom::shuffle`: reorders the elements in
/// place by swaps, so the result is a permutation of the input.
#[verifier::external_body]
pub(crate) fn shuffle(v: &mut Vec<usize>)
    ensures
        final(v)@.len() == old(v)@.len(),
        final(v)@.to_multiset() == old(v)@.to_multiset(),
{
    v.shuffle(&mut rand::rng())
}

} // verus!
