use vstd::prelude::*;
use rand::Rng;
use rand::seq::SliceRandom;
use rand::rngs::StdRng;

verus! {

/// The seedable random source that every operator draws from.
#[verifier::external_type_specification]
#[verifier::external_body]
pub struct ExStdRng(StdRng);

/// Relies on rand's `Rng::random_range`: a value drawn from `0..hi`; it panics
/// only on an empty range.
#[verifier::external_body]
pub(crate) fn draw_below(rng: &mut StdRng, hi: usize) -> (r: usize)
    requires
        0 < hi,
    ensures
        r < hi,
{
    rng.random_range(0..hi)
}

/// Relies on rand's `Rng::random_ratio`: true with chance
/// `numerator / denominator`, always false when `numerator == 0` and always
/// true when `numerator == denominator`; it panics only when
/// `denominator == 0` or `numerator > denominator`.
#[verifier::external_body]
pub(crate) fn draw_ratio(rng: &mut StdRng, numerator: u32, denominator: u32) -> (r: bool)
    requires
        0 < denominator,
        numerator <= denominator,
    ensures
        numerator == 0 ==> !r,
        numerator == denominator ==> r,
{
    rng.random_ratio(numerator, denominator)
}

/// Relies on rand's `SliceRandom::shuffle`: the stops are permuted in place.
#[verifier::external_body]
pub(crate) fn shuffle_stops(route: &mut Vec<usize>, rng: &mut StdRng)
    ensures
        final(route)@.len() == old(route)@.len(),
        final(route)@.to_multiset() == old(route)@.to_multiset(),
{
    route.shuffle(rng)
}

} // verus!
