//! A single weighted transform: an affine map followed by an ordered
//! pipeline of nonlinear warps (the variations), with a provenance color.
//! Applying a transform to a point is specified exactly, down to the
//! saturation and degeneracy policies of the fixed-point representation.

use vstd::prelude::*;
use crate::color::Rgb;
use crate::fx::{
    FX_PI,
    fx_add,
    fx_add_spec,
    fx_div,
    fx_div_spec,
    fx_mul,
    fx_mul_spec,
    fx_sub,
    fx_sub_spec,
    fold_angle,
    fold_angle_spec,
};
use crate::trig::{
    FX_EXP_MAX,
    FX_EXP_MIN,
    FX_SQRT_MAX,
    fx_cos,
    fx_cos_spec,
    fx_exp,
    fx_exp_spec,
    fx_sin,
    fx_sin_spec,
    fx_sqrt,
    fx_sqrt_spec,
};

verus! {

/// Three in fixed point, the frequency factor of the popcorn warp.
pub const FX_THREE: i64 = 12884901888;

/// The closed set of nonlinear warps. The scale parameters of the
/// exponential and cosine warps are fixed-point values.
#[derive(Clone, Copy, Debug, PartialEq, Eq, Structural)]
pub enum Variation {
    Identity,
    Sinusoidal,
    Spherical,
    Swirl,
    Horseshoe,
    PopCorn,
    Exponential(i64),
    Cosine(i64),
}

/// Six fixed-point coefficients: `x' = a*x + b*y + c`, `y' = d*x + e*y + f`.
#[derive(Clone, Copy, Debug, PartialEq, Eq, Structural)]
pub struct AffineMap {
    pub a: i64,
    pub b: i64,
    pub c: i64,
    pub d: i64,
    pub e: i64,
    pub f: i64,
}

/// One weighted transform of an iterated function system.
#[derive(Debug)]
pub struct Transform {
    pub affine: AffineMap,
    pub variations: Vec<Variation>,
    pub weight: i64,
    pub color: Rgb,
}

/// The x coordinate of the affine image, both products and sums saturating.
pub open spec fn affine_x_spec(m: AffineMap, x: i64, y: i64) -> i64 {
    fx_add_spec(fx_add_spec(fx_mul_spec(m.a, x), fx_mul_spec(m.b, y)), m.c)
}

/// The y coordinate of the affine image; it reads the point before the x
/// update, so the map is applied simultaneously to both coordinates.
pub open spec fn affine_y_spec(m: AffineMap, x: i64, y: i64) -> i64 {
    fx_add_spec(fx_add_spec(fx_mul_spec(m.d, x), fx_mul_spec(m.e, y)), m.f)
}

/// Applies an affine map to a point.
pub fn affine_apply(m: &AffineMap, x: i64, y: i64) -> (r: (i64, i64))
    ensures
        r.0 == affine_x_spec(*m, x, y),
        r.1 == affine_y_spec(*m, x, y),
{
    let nx = fx_add(fx_add(fx_mul(m.a, x), fx_mul(m.b, y)), m.c);
    let ny = fx_add(fx_add(fx_mul(m.d, x), fx_mul(m.e, y)), m.f);
    (nx, ny)
}

/// The squared radius of a point, saturated at the largest value the
/// square-root kernel accepts.
pub open spec fn radius2_spec(x: i64, y: i64) -> i64 {
    let s = fx_add_spec(fx_mul_spec(x, x), fx_mul_spec(y, y));
    if s > FX_SQRT_MAX {
        FX_SQRT_MAX
    } else {
        s
    }
}

/// A fixed-point square is non-negative.
proof fn lemma_square_nonneg(x: i64)
    ensures
        fx_mul_spec(x, x) >= 0,
{
    assert(x as int * x as int >= 0) by (nonlinear_arith);
}

/// The squared radius of the pipeline's current point.
pub fn radius2(x: i64, y: i64) -> (r: i64)
    ensures
        r == radius2_spec(x, y),
        0 <= r <= FX_SQRT_MAX,
{
    proof {
        lemma_square_nonneg(x);
        lemma_square_nonneg(y);
    }
    let s = fx_add(fx_mul(x, x), fx_mul(y, y));
    if s > FX_SQRT_MAX {
        FX_SQRT_MAX
    } else {
        s
    }
}

/// The radius of a point: the square root of the saturated squared radius.
pub open spec fn radius_spec(x: i64, y: i64) -> i64 {
    fx_sqrt_spec(radius2_spec(x, y))
}

/// An exponent clamped into the interval the exponential kernel accepts.
pub open spec fn exp_clamp_spec(v: i64) -> i64 {
    if v < FX_EXP_MIN {
        FX_EXP_MIN
    } else if v > FX_EXP_MAX {
        FX_EXP_MAX
    } else {
        v
    }
}

fn exp_clamp(v: i64) -> (r: i64)
    ensures
        r == exp_clamp_spec(v),
{
    if v < FX_EXP_MIN {
        FX_EXP_MIN
    } else if v > FX_EXP_MAX {
        FX_EXP_MAX
    } else {
        v
    }
}

/// The sine of an angle after folding it into one turn of zero.
pub open spec fn sin_of(v: i64) -> i64 {
    fx_sin_spec(fold_angle_spec(v))
}

/// The cosine of an angle after folding it into one turn of zero.
pub open spec fn cos_of(v: i64) -> i64 {
    fx_cos_spec(fold_angle_spec(v))
}

/// The tangent of an angle: sine over cosine. Where the fixed-point cosine
/// is exactly zero the quotient policy yields zero.
pub open spec fn tan_of(v: i64) -> i64 {
    fx_div_spec(sin_of(v), cos_of(v))
}

/// One warp applied to the pipeline's current point. `c` and `f` are the
/// owning affine map's translation terms, which the popcorn warp couples
/// to. Warps that divide by the radius leave the point unchanged when the
/// fixed-point radius is exactly zero, so no division by zero can happen.
pub open spec fn variation_step_spec(v: Variation, x: i64, y: i64, c: i64, f: i64) -> (i64, i64) {
    match v {
        Variation::Identity => (x, y),
        Variation::Sinusoidal => (sin_of(x), sin_of(y)),
        Variation::Spherical => {
            let r2 = radius2_spec(x, y);
            if r2 == 0 {
                (x, y)
            } else {
                (fx_div_spec(x, r2), fx_div_spec(y, r2))
            }
        },
        Variation::Swirl => {
            let r = radius_spec(x, y);
            (
                fx_sub_spec(fx_mul_spec(x, sin_of(r)), fx_mul_spec(y, cos_of(r))),
                fx_add_spec(fx_mul_spec(x, cos_of(r)), fx_mul_spec(y, sin_of(r))),
            )
        },
        Variation::Horseshoe => {
            let r = radius_spec(x, y);
            if r == 0 {
                (x, y)
            } else {
                (fx_div_spec(fx_sub_spec(x, y), r), fx_div_spec(fx_add_spec(x, y), r))
            }
        },
        Variation::PopCorn => (
            fx_add_spec(x, fx_mul_spec(c, sin_of(tan_of(fx_mul_spec(FX_THREE, y))))),
            fx_add_spec(y, fx_mul_spec(f, sin_of(tan_of(fx_mul_spec(FX_THREE, x))))),
        ),
        Variation::Exponential(scale) => (
            fx_mul_spec(fx_mul_spec(fx_exp_spec(exp_clamp_spec(x)), scale), cos_of(x)),
            fx_mul_spec(fx_mul_spec(fx_exp_spec(exp_clamp_spec(y)), scale), sin_of(y)),
        ),
        // The y coordinate deliberately scales by x, not y: the warp is
        // defined that way, asymmetry and all.
        Variation::Cosine(scale) => (
            fx_mul_spec(fx_mul_spec(cos_of(fx_mul_spec(FX_PI, x)), scale), x),
            fx_mul_spec(fx_mul_spec(cos_of(fx_mul_spec(FX_PI, y)), scale), x),
        ),
    }
}

/// Applies one warp to the current point.
pub fn variation_step(v: Variation, x: i64, y: i64, c: i64, f: i64) -> (r: (i64, i64))
    ensures
        r == variation_step_spec(v, x, y, c, f),
{
    match v {
        Variation::Identity => (x, y),
        Variation::Sinusoidal => (fx_sin(fold_angle(x)), fx_sin(fold_angle(y))),
        Variation::Spherical => {
            let r2 = radius2(x, y);
            if r2 == 0 {
                (x, y)
            } else {
                (fx_div(x, r2), fx_div(y, r2))
            }
        },
        Variation::Swirl => {
            let r = fx_sqrt(radius2(x, y));
            let sin_r = fx_sin(fold_angle(r));
            let cos_r = fx_cos(fold_angle(r));
            (fx_sub(fx_mul(x, sin_r), fx_mul(y, cos_r)), fx_add(fx_mul(x, cos_r), fx_mul(y, sin_r)))
        },
        Variation::Horseshoe => {
            let r = fx_sqrt(radius2(x, y));
            if r == 0 {
                (x, y)
            } else {
                (fx_div(fx_sub(x, y), r), fx_div(fx_add(x, y), r))
            }
        },
        Variation::PopCorn => {
            let tan_y = {
                let angle = fold_angle(fx_mul(FX_THREE, y));
                fx_div(fx_sin(angle), fx_cos(angle))
            };
            let tan_x = {
                let angle = fold_angle(fx_mul(FX_THREE, x));
                fx_div(fx_sin(angle), fx_cos(angle))
            };
            (
                fx_add(x, fx_mul(c, fx_sin(fold_angle(tan_y)))),
                fx_add(y, fx_mul(f, fx_sin(fold_angle(tan_x)))),
            )
        },
        Variation::Exponential(scale) => (
            fx_mul(fx_mul(fx_exp(exp_clamp(x)), scale), fx_cos(fold_angle(x))),
            fx_mul(fx_mul(fx_exp(exp_clamp(y)), scale), fx_sin(fold_angle(y))),
        ),
        Variation::Cosine(scale) => (
            fx_mul(fx_mul(fx_cos(fold_angle(fx_mul(FX_PI, x))), scale), x),
            fx_mul(fx_mul(fx_cos(fold_angle(fx_mul(FX_PI, y))), scale), x),
        ),
    }
}

/// The whole pipeline: each warp consumes the previous warp's output, in
/// order.
pub open spec fn pipeline_spec(vs: Seq<Variation>, x: i64, y: i64, c: i64, f: i64) -> (i64, i64)
    decreases vs.len(),
{
    if vs.len() == 0 {
        (x, y)
    } else {
        let stepped = variation_step_spec(vs[0], x, y, c, f);
        pipeline_spec(vs.drop_first(), stepped.0, stepped.1, c, f)
    }
}

/// The image of a point under a transform: the affine map applied
/// simultaneously to both coordinates, then the variation pipeline.
pub open spec fn transform_apply_spec(t: Transform, x: i64, y: i64) -> (i64, i64) {
    pipeline_spec(
        t.variations@,
        affine_x_spec(t.affine, x, y),
        affine_y_spec(t.affine, x, y),
        t.affine.c,
        t.affine.f,
    )
}

impl Transform {
    /// Applies the transform to a point: the affine map, then every
    /// variation in order, each reading the radius of the point it is
    /// handed.
    pub fn apply(&self, x: i64, y: i64) -> (r: (i64, i64))
        ensures
            r == transform_apply_spec(*self, x, y),
    {
        let (ax, ay) = affine_apply(&self.affine, x, y);
        let mut cur_x = ax;
        let mut cur_y = ay;
        let n = self.variations.len();
        proof {
            assert(self.variations@.skip(0) == self.variations@);
        }
        for i in 0..n
            invariant
                n == self.variations@.len(),
                pipeline_spec(self.variations@, ax, ay, self.affine.c, self.affine.f)
                    == pipeline_spec(
                    self.variations@.skip(i as int),
                    cur_x,
                    cur_y,
                    self.affine.c,
                    self.affine.f,
                ),
        {
            let stepped = variation_step(
                self.variations[i],
                cur_x,
                cur_y,
                self.affine.c,
                self.affine.f,
            );
            proof {
                assert(self.variations@.skip(i as int).drop_first() == self.variations@.skip(
                    i + 1,
                ));
            }
            cur_x = stepped.0;
            cur_y = stepped.1;
        }
        proof {
            assert(self.variations@.skip(n as int).len() == 0);
        }
        (cur_x, cur_y)
    }
}

} // verus!
