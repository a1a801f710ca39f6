//! Signed binary fixed-point arithmetic: an `i64` carries a real value
//! scaled by 2^32. All operations saturate at the `i64` range instead of
//! overflowing, and division by zero yields zero; both policies are stated
//! exactly in the specification functions below.

use vstd::prelude::*;

verus! {

/// The fixed-point representation of 1 (2^32).
pub const FX_ONE: i64 = 4294967296;

/// The fixed-point representation of pi, rounded to the nearest unit.
pub const FX_PI: i64 = 13493037705;

/// The fixed-point representation of 2*pi, rounded to the nearest unit.
pub const FX_TAU: i64 = 26986075409;

/// The absolute value of an integer.
pub open spec fn abs_int(v: int) -> int {
    if v >= 0 {
        v
    } else {
        -v
    }
}

/// Saturation to the `i64` range.
pub open spec fn clamp_to_i64(v: int) -> i64 {
    if v > i64::MAX {
        i64::MAX
    } else if v < i64::MIN {
        i64::MIN
    } else {
        v as i64
    }
}

/// Signed division rounding toward zero (the quotient of the magnitudes,
/// with the sign of the exact quotient), for a positive divisor.
pub open spec fn div_toward_zero(n: int, d: int) -> int
    recommends
        d > 0,
{
    if n >= 0 {
        n / d
    } else {
        -((-n) / d)
    }
}

/// The fixed-point product: the integer product rescaled by 2^32,
/// rounded toward zero and saturated.
pub open spec fn fx_mul_spec(a: i64, b: i64) -> i64 {
    clamp_to_i64(div_toward_zero(a * b, 0x1_0000_0000))
}

/// The fixed-point quotient, rounded toward zero and saturated.
/// A zero divisor yields zero.
pub open spec fn fx_div_spec(a: i64, b: i64) -> i64 {
    if b == 0 {
        0
    } else {
        let m = (abs_int(a as int) * 0x1_0000_0000) / abs_int(b as int);
        if (a < 0) != (b < 0) {
            clamp_to_i64(-m)
        } else {
            clamp_to_i64(m)
        }
    }
}

/// The saturating sum.
pub open spec fn fx_add_spec(a: i64, b: i64) -> i64 {
    clamp_to_i64(a + b)
}

/// The magnitude of an `i64` as a `u128`.
fn abs_u128(a: i64) -> (r: u128)
    ensures
        r == abs_int(a as int),
{
    if a >= 0 {
        a as u128
    } else {
        let wide: i128 = -(a as i128);
        wide as u128
    }
}

/// Rebuilds a signed saturated `i64` from a sign and a magnitude.
fn from_sign_magnitude(negative: bool, m: u128) -> (r: i64)
    ensures
        !negative ==> r == clamp_to_i64(m as int),
        negative ==> r == clamp_to_i64(-(m as int)),
{
    if !negative {
        if m > i64::MAX as u128 {
            i64::MAX
        } else {
            m as i64
        }
    } else {
        if m >= 9223372036854775808u128 {
            i64::MIN
        } else {
            -(m as i64)
        }
    }
}

/// The magnitude of a toward-zero quotient is the quotient of the
/// magnitudes, for a positive divisor.
proof fn lemma_div_toward_zero_magnitude(n: int, d: int)
    requires
        d > 0,
    ensures
        abs_int(div_toward_zero(n, d)) == abs_int(n) / d,
        n >= 0 ==> div_toward_zero(n, d) >= 0,
        n < 0 ==> div_toward_zero(n, d) <= 0,
{
    if n >= 0 {
        vstd::arithmetic::div_mod::lemma_div_is_ordered(0, n, d);
    } else {
        vstd::arithmetic::div_mod::lemma_div_is_ordered(0, -n, d);
    }
}

/// The fixed-point product.
pub fn fx_mul(a: i64, b: i64) -> (r: i64)
    ensures
        r == fx_mul_spec(a, b),
{
    let negative = (a < 0) != (b < 0);
    let ua = abs_u128(a);
    let ub = abs_u128(b);
    proof {
        assert(ua * ub <= 0x8000_0000_0000_0000u128 * 0x8000_0000_0000_0000u128)
            by (nonlinear_arith)
            requires
                ua <= 0x8000_0000_0000_0000u128,
                ub <= 0x8000_0000_0000_0000u128,
        ;
    }
    let p: u128 = ua * ub;
    let q: u128 = p / 4294967296u128;
    proof {
        assert(ua * ub == abs_int(a as int) * abs_int(b as int));
        assert(abs_int(a as int) * abs_int(b as int) == abs_int(a as int * b as int))
            by (nonlinear_arith);
        lemma_div_toward_zero_magnitude(a as int * b as int, 0x1_0000_0000);
        if negative {
            assert(a as int * b as int <= 0) by (nonlinear_arith)
                requires
                    (a < 0) != (b < 0),
            ;
        } else {
            assert(a as int * b as int >= 0) by (nonlinear_arith)
                requires
                    (a < 0) == (b < 0),
            ;
        }
    }
    from_sign_magnitude(negative, q)
}

/// The fixed-point quotient; a zero divisor yields zero.
pub fn fx_div(a: i64, b: i64) -> (r: i64)
    ensures
        r == fx_div_spec(a, b),
{
    if b == 0 {
        0
    } else {
        let negative = (a < 0) != (b < 0);
        let ua = abs_u128(a);
        let ub = abs_u128(b);
        let m: u128 = (ua * 4294967296u128) / ub;
        from_sign_magnitude(negative, m)
    }
}

/// The saturating sum.
pub fn fx_add(a: i64, b: i64) -> (r: i64)
    ensures
        r == fx_add_spec(a, b),
{
    let wide: i128 = a as i128 + b as i128;
    if wide > i64::MAX as i128 {
        i64::MAX
    } else if wide < i64::MIN as i128 {
        i64::MIN
    } else {
        wide as i64
    }
}

/// The saturating difference.
pub open spec fn fx_sub_spec(a: i64, b: i64) -> i64 {
    clamp_to_i64(a - b)
}

/// The saturating difference.
pub fn fx_sub(a: i64, b: i64) -> (r: i64)
    ensures
        r == fx_sub_spec(a, b),
{
    let wide: i128 = a as i128 - b as i128;
    if wide > i64::MAX as i128 {
        i64::MAX
    } else if wide < i64::MIN as i128 {
        i64::MIN
    } else {
        wide as i64
    }
}

/// An angle folded into the interval `(-FX_TAU, FX_TAU)`: the remainder of
/// the magnitude by 2*pi, carrying the argument's sign.
pub open spec fn fold_angle_spec(a: i64) -> i64 {
    if a >= 0 {
        (a % FX_TAU) as i64
    } else {
        (-((-(a as int)) % (FX_TAU as int))) as i64
    }
}

/// Folds an angle into `(-FX_TAU, FX_TAU)` before a trigonometric kernel
/// is applied, so that the kernel's own reduction loop stays short.
pub fn fold_angle(a: i64) -> (r: i64)
    ensures
        r == fold_angle_spec(a),
        -FX_TAU < r < FX_TAU,
{
    let ua = abs_u128(a);
    let m: u128 = ua % 26986075409u128;
    proof {
        assert(abs_int(a as int) % (FX_TAU as int) < FX_TAU);
    }
    if a >= 0 {
        m as i64
    } else {
        -(m as i64)
    }
}

} // verus!
