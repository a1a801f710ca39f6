//! The fixed-point arithmetic and the variation pipeline, including one
//! check per nonlinear kernel that the kernel computes its function
//! rather than handing its argument back.

use fractal_flame::color::{Rgb, blend, color_map};
use fractal_flame::fx::{FX_ONE, fx_add, fx_div, fx_mul, fx_sub};
use fractal_flame::transform::{AffineMap, Transform, Variation};

fn fx(v: f64) -> i64 {
    (v * 4294967296.0).round() as i64
}

fn to_f64(v: i64) -> f64 {
    (v as f64) / 4294967296.0
}

fn identity_affine() -> AffineMap {
    AffineMap { a: FX_ONE, b: 0, c: 0, d: 0, e: FX_ONE, f: 0 }
}

fn warp(variation: Variation, affine: AffineMap, x: f64, y: f64) -> (f64, f64) {
    let t = Transform {
        affine,
        variations: vec![variation],
        weight: FX_ONE,
        color: Rgb { red: 0, green: 0, blue: FX_ONE },
    };
    let (rx, ry) = t.apply(fx(x), fx(y));
    (to_f64(rx), to_f64(ry))
}

#[test]
fn fixed_point_products_are_exact_on_integers() {
    assert_eq!(fx_mul(fx(3.0), fx(4.0)), fx(12.0));
    assert_eq!(fx_mul(fx(-3.0), fx(4.0)), fx(-12.0));
    assert_eq!(fx_mul(FX_ONE, 12345), 12345);
    assert_eq!(fx_add(fx(1.5), fx(2.25)), fx(3.75));
    assert_eq!(fx_sub(fx(1.0), fx(3.0)), fx(-2.0));
}

#[test]
fn fixed_point_arithmetic_saturates() {
    assert_eq!(fx_mul(i64::MAX, i64::MAX), i64::MAX);
    assert_eq!(fx_mul(i64::MAX, i64::MIN), i64::MIN);
    assert_eq!(fx_add(i64::MAX, 1), i64::MAX);
    assert_eq!(fx_sub(i64::MIN, 1), i64::MIN);
}

#[test]
fn division_by_zero_yields_zero() {
    assert_eq!(fx_div(fx(1.0), 0), 0);
}

#[test]
fn division_rounds_toward_zero() {
    // 3/25 scaled: floor(3 * 2^32 / 25) exactly.
    assert_eq!(fx_div(fx(3.0), fx(25.0)), 515396075);
    assert_eq!(fx_div(fx(-3.0), fx(25.0)), -515396075);
}

#[test]
fn affine_map_is_applied_simultaneously() {
    // x' = 2x + y + 1, y' = x - y; y' must read the x before the update.
    let m = AffineMap { a: fx(2.0), b: FX_ONE, c: FX_ONE, d: FX_ONE, e: fx(-1.0), f: 0 };
    let (rx, ry) = warp(Variation::Identity, m, 3.0, 5.0);
    assert_eq!(rx, 12.0);
    assert_eq!(ry, -2.0);
}

#[test]
fn sinusoidal_computes_sines() {
    let (rx, ry) = warp(Variation::Sinusoidal, identity_affine(), 1.0, -0.5);
    assert!((rx - 1.0f64.sin()).abs() < 0.005, "sin(1) came out as {rx}");
    assert!((ry - (-0.5f64).sin()).abs() < 0.005, "sin(-0.5) came out as {ry}");
}

#[test]
fn spherical_divides_by_squared_radius() {
    let (rx, ry) = warp(Variation::Spherical, identity_affine(), 3.0, 4.0);
    assert!((rx - 3.0 / 25.0).abs() < 1e-6);
    assert!((ry - 4.0 / 25.0).abs() < 1e-6);
}

#[test]
fn spherical_keeps_the_origin() {
    // The zero-radius hazard: the warp is skipped instead of dividing.
    let (rx, ry) = warp(Variation::Spherical, identity_affine(), 0.0, 0.0);
    assert_eq!((rx, ry), (0.0, 0.0));
}

#[test]
fn swirl_rotates_by_the_radius() {
    let (rx, ry) = warp(Variation::Swirl, identity_affine(), 1.0, 0.0);
    assert!((rx - 1.0f64.sin()).abs() < 0.005, "swirl x came out as {rx}");
    assert!((ry - 1.0f64.cos()).abs() < 0.005, "swirl y came out as {ry}");
}

#[test]
fn horseshoe_scales_by_the_radius() {
    let (rx, ry) = warp(Variation::Horseshoe, identity_affine(), 3.0, 4.0);
    assert!((rx - (-0.2)).abs() < 0.005, "horseshoe x came out as {rx}");
    assert!((ry - 1.4).abs() < 0.005, "horseshoe y came out as {ry}");
}

#[test]
fn popcorn_couples_to_the_translation_terms() {
    let mut m = identity_affine();
    m.c = fx(0.25);
    m.f = fx(0.25);
    // The affine then adds its translation: the warp sees (0.25, 0.25).
    let (rx, ry) = warp(Variation::PopCorn, m, 0.0, 0.0);
    let expect_x = 0.25 + 0.25 * (3.0 * 0.25f64).tan().sin();
    let expect_y = 0.25 + 0.25 * (3.0 * 0.25f64).tan().sin();
    assert!((rx - expect_x).abs() < 0.02, "popcorn x came out as {rx}, expected {expect_x}");
    assert!((ry - expect_y).abs() < 0.02, "popcorn y came out as {ry}, expected {expect_y}");
}

#[test]
fn exponential_scales_by_the_exponential() {
    let (rx, ry) = warp(Variation::Exponential(FX_ONE), identity_affine(), 0.0, 0.0);
    assert!((rx - 1.0).abs() < 0.005, "exp(0)*cos(0) came out as {rx}");
    assert!(ry.abs() < 0.005, "exp(0)*sin(0) came out as {ry}");
    let (rx2, _) = warp(Variation::Exponential(FX_ONE), identity_affine(), 1.0, 0.0);
    let expect = 1.0f64.exp() * 1.0f64.cos();
    assert!((rx2 - expect).abs() < 0.02, "exp(1)*cos(1) came out as {rx2}, expected {expect}");
}

#[test]
fn cosine_scales_both_axes_by_x() {
    let scale = fx(0.5);
    let (rx, ry) = warp(Variation::Cosine(scale), identity_affine(), 0.25, 0.75);
    let expect_x = (std::f64::consts::PI * 0.25).cos() * 0.5 * 0.25;
    // The y output deliberately scales by x, not y.
    let expect_y = (std::f64::consts::PI * 0.75).cos() * 0.5 * 0.25;
    assert!((rx - expect_x).abs() < 0.005, "cosine x came out as {rx}, expected {expect_x}");
    assert!((ry - expect_y).abs() < 0.005, "cosine y came out as {ry}, expected {expect_y}");
}

#[test]
fn variations_chain_in_order() {
    // Spherical after sinusoidal differs from sinusoidal alone.
    let t = Transform {
        affine: identity_affine(),
        variations: vec![Variation::Sinusoidal, Variation::Spherical],
        weight: FX_ONE,
        color: Rgb { red: 0, green: 0, blue: FX_ONE },
    };
    let (rx, ry) = t.apply(fx(1.0), fx(1.0));
    let s = 1.0f64.sin();
    let r2 = 2.0 * s * s;
    assert!((to_f64(rx) - s / r2).abs() < 0.01);
    assert!((to_f64(ry) - s / r2).abs() < 0.01);
}

#[test]
fn color_map_interpolates_blue_to_red() {
    let c = color_map(fx(0.3));
    assert_eq!(c, Rgb { red: fx(0.3), green: 0, blue: FX_ONE - fx(0.3) });
    let clamped_low = color_map(fx(-2.0));
    assert_eq!(clamped_low, Rgb { red: 0, green: 0, blue: FX_ONE });
    let clamped_high = color_map(fx(2.0));
    assert_eq!(clamped_high, Rgb { red: FX_ONE, green: 0, blue: 0 });
}

#[test]
fn blend_halves_the_channel_sums() {
    let a = Rgb { red: FX_ONE, green: 0, blue: fx(0.5) };
    let b = Rgb { red: 0, green: fx(0.25), blue: fx(0.75) };
    let c = blend(a, b);
    assert_eq!(c, Rgb { red: fx(0.5), green: fx(0.125), blue: fx(0.625) });
}

#[test]
fn blend_rounds_ties_to_even() {
    let a = Rgb { red: 1, green: 3, blue: FX_ONE - 1 };
    let b = Rgb { red: 0, green: 0, blue: FX_ONE };
    let c = blend(a, b);
    assert_eq!(c, Rgb { red: 0, green: 2, blue: FX_ONE });
}

#[test]
fn blending_toward_an_endpoint_reaches_it() {
    // The running blend against a fixed color must converge to that
    // color exactly, on both ends of the channel range.
    let target = Rgb { red: FX_ONE, green: 0, blue: 0 };
    let mut c = Rgb { red: fx(0.123), green: fx(0.877), blue: FX_ONE };
    for _ in 0..64 {
        c = blend(c, target);
    }
    assert_eq!(c, target);
}
