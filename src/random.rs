//! Random draws for seeding a grid.
use rand::Rng;
use vstd::prelude::*;

verus! {

/// Relies on `rand::thread_rng` and `Rng::gen_ratio`: `true` with probability
/// `numerator / denominator`. `gen_ratio` panics when `denominator` is 0 or
/// `numerator > denominator`; a ratio of 0 never gives `true`, a ratio of 1
/// always does.
#[verifier::external_body]
pub(crate) fn draw_ratio(numerator: u32, denominator: u32) -> (r: bool)
    requires
        0 < denominator,
        numerator <= denominator,
    ensures
        numerator == 0 ==> !r,
        numerator == denominator ==> r,
{
    rand::thread_rng().gen_ratio(numerator, denominator)
}

} // verus!
