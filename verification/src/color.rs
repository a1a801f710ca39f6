//! Colors as fixed-point RGB triples in `[0, 1]^3`, the halving blend the
//! histogram applies on every hit, and the blue-to-red palette that maps a
//! fraction to a reference color.

use vstd::prelude::*;
use crate::fx::FX_ONE;

verus! {

/// An RGB triple; each channel is a fixed-point value in `[0, FX_ONE]`.
#[derive(Clone, Copy, Debug, PartialEq, Eq, Structural)]
pub struct Rgb {
    pub red: i64,
    pub green: i64,
    pub blue: i64,
}

/// Every channel lies in `[0, 1]`.
pub open spec fn rgb_valid(c: Rgb) -> bool {
    &&& 0 <= c.red <= FX_ONE
    &&& 0 <= c.green <= FX_ONE
    &&& 0 <= c.blue <= FX_ONE
}

/// The average of two channels, a tie rounded to the even neighbor. With
/// ties broken this way — as round-to-nearest arithmetic breaks them —
/// repeatedly blending toward an endpoint of `[0, FX_ONE]` reaches the
/// endpoint exactly instead of stalling one unit short of it.
pub open spec fn blend_channel_spec(a: i64, b: i64) -> i64 {
    let q = (a + b) / 2;
    if (a + b) % 2 == 0 {
        q as i64
    } else if q % 2 == 0 {
        q as i64
    } else {
        (q + 1) as i64
    }
}

/// The channel-wise average of two colors, ties to even. Repeating it
/// against a fixed color is the histogram's exponentially-decaying running
/// blend: it over-weights the most recent contributor rather than taking a
/// true mean.
pub open spec fn blend_spec(a: Rgb, b: Rgb) -> Rgb {
    Rgb {
        red: blend_channel_spec(a.red, b.red),
        green: blend_channel_spec(a.green, b.green),
        blue: blend_channel_spec(a.blue, b.blue),
    }
}

/// Averages two valid channels, a tie rounded to the even neighbor.
fn blend_channel(a: i64, b: i64) -> (r: i64)
    requires
        0 <= a <= FX_ONE,
        0 <= b <= FX_ONE,
    ensures
        r == blend_channel_spec(a, b),
        0 <= r <= FX_ONE,
{
    let s = a + b;
    let q = s / 2;
    if s % 2 == 0 {
        q
    } else if q % 2 == 0 {
        q
    } else {
        q + 1
    }
}

/// Averages two valid colors channel by channel.
pub fn blend(a: Rgb, b: Rgb) -> (r: Rgb)
    requires
        rgb_valid(a),
        rgb_valid(b),
    ensures
        r == blend_spec(a, b),
        rgb_valid(r),
{
    Rgb {
        red: blend_channel(a.red, b.red),
        green: blend_channel(a.green, b.green),
        blue: blend_channel(a.blue, b.blue),
    }
}

/// The value clamped to `[0, 1]`.
pub open spec fn unit_clamp_spec(v: i64) -> i64 {
    if v < 0 {
        0
    } else if v > FX_ONE {
        FX_ONE
    } else {
        v
    }
}

/// The palette: linear interpolation from blue (at 0) to red (at 1) of the
/// clamped value. Interpolating between the 0 and 1 endpoints is exact in
/// fixed point, so the red channel is the clamped value itself and the blue
/// channel its complement.
pub open spec fn color_map_spec(v: i64) -> Rgb {
    Rgb { red: unit_clamp_spec(v), green: 0, blue: (FX_ONE - unit_clamp_spec(v)) as i64 }
}

/// Maps a fraction to its palette color.
pub fn color_map(v: i64) -> (r: Rgb)
    ensures
        r == color_map_spec(v),
        rgb_valid(r),
{
    let clamped = if v < 0 {
        0
    } else if v > FX_ONE {
        FX_ONE
    } else {
        v
    };
    Rgb { red: clamped, green: 0, blue: FX_ONE - clamped }
}

} // verus!
