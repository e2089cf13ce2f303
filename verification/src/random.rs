//! The random choices of the simulation, drawn from the `rand` crate.

use vstd::prelude::*;
use rand::Rng;

verus! {

/// Calls `rand::Rng::gen_range` with the inclusive range from `low` to `high`
/// on the generator of `rand::thread_rng`. The call panics on an empty
/// range, which `requires` leaves out; what it returns lies in the range.
#[verifier::external_body]
pub(crate) fn random_between(low: i32, high: i32) -> (r: i32)
    requires
        low <= high,
    ensures
        low <= r <= high,
{
    rand::thread_rng().gen_range(low..=high)
}

/// Calls `rand::Rng::gen_ratio` on the generator of `rand::thread_rng`.
/// The call panics where the denominator is 0 or less than the numerator,
/// which `requires` leaves out. Nothing is claimed of the result.
#[verifier::external_body]
pub(crate) fn random_ratio(numerator: u32, denominator: u32) -> (heads: bool)
    requires
        denominator > 0,
        numerator <= denominator,
{
    rand::thread_rng().gen_ratio(numerator, denominator)
}

} // verus!
