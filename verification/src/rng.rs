//! Trusted access to the process-wide random number generator.

use vstd::prelude::*;

use rand::seq::SliceRandom;
use rand::Rng;

use crate::geometry::Coordinate;

verus! {

/// Relies on rand's `Rng::gen_range` over `0..max`: a uniformly distributed
/// value strictly below `max`. The range must not be empty.
#[verifier::external_body]
pub(crate) fn rand_below(max: usize) -> (r: usize)
    requires
        max > 0,
    ensures
        r < max,
{
    let mut rng = rand::thread_rng();
    rng.gen_range(0..max)
}

/// Relies on rand's `Rng::gen_ratio`: a Bernoulli draw that returns `true`
/// with probability `numerator / denominator`, always `false` when the
/// numerator is zero and always `true` when numerator and denominator are
/// equal. The numerator must not exceed the denominator and the denominator
/// must be positive, since the draw panics otherwise.
#[verifier::external_body]
pub(crate) fn ratio_draw(numerator: u32, denominator: u32) -> (r: bool)
    requires
        0 < denominator,
        numerator <= denominator,
    ensures
        numerator == 0 ==> !r,
        numerator == denominator ==> r,
{
    let mut rng = rand::thread_rng();
    rng.gen_ratio(numerator, denominator)
}

/// Relies on rand's `SliceRandom::shuffle`: a Fisher-Yates shuffle that
/// permutes the elements in place, so the multiset of elements is unchanged.
#[verifier::external_body]
pub(crate) fn shuffle_coordinates(points: &mut Vec<Coordinate>)
    ensures
        final(points)@.to_multiset() == old(points)@.to_multiset(),
{
    let mut rng = rand::thread_rng();
    points.shuffle(&mut rng);
}

} // verus!
