//! Shared utilities: the tracer's stand-in for infinity and integer sampling.

use rand::Rng;
use vstd::prelude::*;

pub mod arrange;
pub mod color;
pub mod interval;
pub mod ray;
pub mod scalar;
pub mod vec3;

verus! {

/// Rank of 10^18, which the tracer uses as its infinity.
pub const INF: i64 = 0x43AB_C16D_674E_C800;

/// Rank of -10^18.
pub const NEG_INF: i64 = -0x43AB_C16D_674E_C800;

/// Draws an integer with `Rng::gen_range` of the `rand` crate, on the
/// generator that `rand::thread_rng` hands to the calling thread, over the
/// inclusive range from `min` to `max`. Trusted: whatever is drawn lies in that
/// range. An empty range makes `gen_range` panic, so it is ruled out.
#[verifier::external_body]
fn draw_inclusive(min: i32, max: i32) -> (drawn: i32)
    requires
        min <= max,
    ensures
        min <= drawn <= max,
{
    rand::thread_rng().gen_range(min..=max)
}

/// A random integer between the two bounds, both included. With the bounds in
/// order the draw is from `min` to `max`; with `min` above `max` it is from
/// just above `max` to `min`.
pub fn random_int(min: i32, max: i32) -> (drawn: i32)
    ensures
        min <= max ==> min <= drawn <= max,
        min > max ==> max < drawn <= min,
{
    if min <= max {
        draw_inclusive(min, max)
    } else {
        draw_inclusive(max + 1, min)
    }
}

} // verus!
