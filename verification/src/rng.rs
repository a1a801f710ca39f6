//! The library's only source of randomness: a caller-supplied
//! `rand::rngs::StdRng` stream, drawn from through one trusted wrapper.
//! Nothing is assumed of a drawn value beyond its range, so every function
//! that consumes one is verified for every value it can take.

use vstd::prelude::*;
use crate::fx::FX_ONE;

verus! {

/// Declares `rand::rngs::StdRng` so that signatures can carry a random
/// stream; the stream itself is opaque to the proofs.
#[verifier::external_type_specification]
#[verifier::external_body]
pub struct ExStdRng(rand::rngs::StdRng);

/// Relies on `rand::Rng::gen_range` over `0..bound`: it panics only on an
/// empty range and returns a value of the range. Which value comes back is
/// random, so nothing more is assumed.
#[verifier::external_body]
pub(crate) fn draw_below(rng: &mut rand::rngs::StdRng, bound: u64) -> (r: u64)
    requires
        bound >= 1,
    ensures
        r < bound,
{
    rand::Rng::gen_range(rng, 0..bound)
}

/// Draws a fixed-point coordinate uniformly from `[-1, 1)`, the interval
/// the chaos game starts its orbit in.
pub fn draw_start_coordinate(rng: &mut rand::rngs::StdRng) -> (r: i64)
    ensures
        -FX_ONE <= r < FX_ONE,
{
    let u = draw_below(rng, 8589934592u64);
    (u as i64) - FX_ONE
}

/// Draws a fixed-point fraction uniformly from `[0, 1)`.
pub fn draw_unit_fraction(rng: &mut rand::rngs::StdRng) -> (r: i64)
    ensures
        0 <= r < FX_ONE,
{
    draw_below(rng, 4294967296u64) as i64
}

} // verus!
