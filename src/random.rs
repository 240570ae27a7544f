use vstd::prelude::*;
use rand::rngs::ThreadRng;
use rand::Rng;
use crate::units::OBSTACLE_OFFSET_BOUND;

verus! {

#[verifier::external_type_specification]
#[verifier::external_body]
pub struct ExThreadRng(ThreadRng);

/// Relies on rand's `Rng::gen_range` over a half-open integer range: it panics
/// on an empty range and otherwise returns a value of the range.
#[verifier::external_body]
fn random_in_range(rng: &mut ThreadRng, low: i64, high: i64) -> (r: i64)
    requires
        low < high,
    ensures
        low <= r < high,
{
    rng.gen_range(low..high)
}

/// Draws the shared vertical offset of an obstacle pair, in length units.
pub fn generate_random_pipe_offset(rng: &mut ThreadRng) -> (r: i64)
    ensures
        -OBSTACLE_OFFSET_BOUND <= r < OBSTACLE_OFFSET_BOUND,
{
    random_in_range(rng, -OBSTACLE_OFFSET_BOUND, OBSTACLE_OFFSET_BOUND)
}

} // verus!
