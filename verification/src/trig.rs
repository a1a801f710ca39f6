//! Trusted kernels for the nonlinear warps: sine, cosine, exponential and
//! square root over the 2^32-scaled fixed-point representation, computed by
//! the `cordic` crate on `fixed::types::I32F32` values. The kernels are
//! deterministic functions of their argument alone, so each result is given
//! a name that the callers' contracts speak of exactly.

use vstd::prelude::*;
use crate::fx::FX_TAU;

verus! {

/// A conservative magnitude bound for the circular kernels (2 in fixed
/// point): the rotation they run starts from a vector of length about
/// 0.61, grows it by a factor of about 1.65, and so never takes either
/// component past 2, rounding noise included. The exact unit interval is
/// more than the kernels promise — their rounding can overshoot it by a
/// few units.
pub const FX_CIRCULAR_BOUND: i64 = 8589934592;

/// The largest argument the exponential kernel accepts (21 in fixed point):
/// beyond it the result would leave the `I32F32` range.
pub const FX_EXP_MAX: i64 = 90194313216;

/// The smallest argument the exponential kernel accepts (-30 in fixed
/// point): below it the kernel's reduction loop only lengthens while the
/// result stays zero.
pub const FX_EXP_MIN: i64 = -128849018880;

/// The largest value the square-root kernel accepts (2^29 in fixed point):
/// beyond it the kernel's internal squares would leave the `I32F32` range.
pub const FX_SQRT_MAX: i64 = 2305843009213693952;

/// What `cordic::sin` returns for an angle.
pub uninterp spec fn fx_sin_spec(angle: i64) -> i64;

/// What `cordic::cos` returns for an angle.
pub uninterp spec fn fx_cos_spec(angle: i64) -> i64;

/// What `cordic::exp` returns for an exponent.
pub uninterp spec fn fx_exp_spec(x: i64) -> i64;

/// What `cordic::sqrt` returns for a non-negative value.
pub uninterp spec fn fx_sqrt_spec(x: i64) -> i64;

/// Relies on `cordic::sin` over `fixed::types::I32F32`: the result depends
/// on the angle alone, and its magnitude stays within the kernel's
/// rotation bound. The angle is kept within one turn of zero so that the
/// kernel's own reduction loop stays short.
#[verifier::external_body]
pub(crate) fn fx_sin(angle: i64) -> (r: i64)
    requires
        -FX_TAU <= angle <= FX_TAU,
    ensures
        r == fx_sin_spec(angle),
        -FX_CIRCULAR_BOUND <= r <= FX_CIRCULAR_BOUND,
{
    cordic::sin(fixed::types::I32F32::from_bits(angle)).to_bits()
}

/// Relies on `cordic::cos` over `fixed::types::I32F32`: the result depends
/// on the angle alone, and its magnitude stays within the kernel's
/// rotation bound.
#[verifier::external_body]
pub(crate) fn fx_cos(angle: i64) -> (r: i64)
    requires
        -FX_TAU <= angle <= FX_TAU,
    ensures
        r == fx_cos_spec(angle),
        -FX_CIRCULAR_BOUND <= r <= FX_CIRCULAR_BOUND,
{
    cordic::cos(fixed::types::I32F32::from_bits(angle)).to_bits()
}

/// Relies on `cordic::exp` over `fixed::types::I32F32`: the result depends
/// on the exponent alone, and every factor the kernel multiplies is
/// non-negative. The argument bounds keep the kernel's integer-part loop
/// inside the `I32F32` range.
#[verifier::external_body]
pub(crate) fn fx_exp(x: i64) -> (r: i64)
    requires
        FX_EXP_MIN <= x <= FX_EXP_MAX,
    ensures
        r == fx_exp_spec(x),
        r >= 0,
{
    cordic::exp(fixed::types::I32F32::from_bits(x)).to_bits()
}

/// Relies on `cordic::sqrt` over `fixed::types::I32F32`: the result depends
/// on the argument alone; it is built from non-negative summands, and zero
/// and one are returned unchanged. A negative argument would make the
/// kernel loop forever, and an argument above `FX_SQRT_MAX` would overflow
/// its internal squares, so both are kept out.
#[verifier::external_body]
pub(crate) fn fx_sqrt(x: i64) -> (r: i64)
    requires
        0 <= x <= FX_SQRT_MAX,
    ensures
        r == fx_sqrt_spec(x),
        r >= 0,
        x == 0 ==> r == 0,
{
    cordic::sqrt(fixed::types::I32F32::from_bits(x)).to_bits()
}

} // verus!
