//! Maps raw orbit coordinates onto a bounded pixel grid: an optional
//! post-transform recenters the orbit, its extrema are computed, and each
//! point is scaled into `width x height` pixels with the vertical axis
//! inverted. A collapsed axis (all points equal) scales to the constant 0
//! rather than dividing by zero.

use vstd::prelude::*;
use vstd::arithmetic::div_mod::{
    lemma_div_is_ordered,
    lemma_div_multiples_vanish_fancy,
    lemma_div_pos_is_pos,
};
use crate::sampler::OrbitPoint;
use crate::transform::{AffineMap, affine_x_spec, affine_y_spec, affine_apply};

verus! {

/// The widest raster either axis may have.
pub const MAX_RASTER_EXTENT: u32 = 32768;

/// A cell of the raster; row 0 is the top row.
#[derive(Clone, Copy, Debug, PartialEq, Eq, Structural)]
pub struct PixelCoord {
    pub x: i32,
    pub y: i32,
}

/// A quantized orbit point: a raster cell tagged with the index of the
/// transform that produced the point.
#[derive(Clone, Copy, Debug, PartialEq, Eq, Structural)]
pub struct PixelPoint {
    pub coord: PixelCoord,
    pub transform_index: usize,
}

/// The extrema of an orbit, per axis.
#[derive(Clone, Copy, Debug, PartialEq, Eq, Structural)]
pub struct OrbitBounds {
    pub min_x: i64,
    pub max_x: i64,
    pub min_y: i64,
    pub max_y: i64,
}

/// Applies the post-transform affine map to every orbit point, keeping
/// each point's provenance tag.
pub fn update_coords(points: &Vec<OrbitPoint>, post: &AffineMap) -> (moved: Vec<OrbitPoint>)
    ensures
        moved@.len() == points@.len(),
        forall|k: int|
            0 <= k < points@.len() ==> {
                &&& (#[trigger] moved@[k]).x == affine_x_spec(*post, points@[k].x, points@[k].y)
                &&& moved@[k].y == affine_y_spec(*post, points@[k].x, points@[k].y)
                &&& moved@[k].transform_index == points@[k].transform_index
            },
{
    let n = points.len();
    let mut moved: Vec<OrbitPoint> = Vec::new();
    for i in 0..n
        invariant
            n == points@.len(),
            moved@.len() == i,
            forall|k: int|
                0 <= k < i ==> {
                    &&& (#[trigger] moved@[k]).x == affine_x_spec(*post, points@[k].x, points@[k].y)
                    &&& moved@[k].y == affine_y_spec(*post, points@[k].x, points@[k].y)
                    &&& moved@[k].transform_index == points@[k].transform_index
                },
    {
        let p = points[i];
        let (nx, ny) = affine_apply(post, p.x, p.y);
        moved.push(OrbitPoint { x: nx, y: ny, transform_index: p.transform_index });
    }
    moved
}

/// The least of the first `i` values.
pub open spec fn fold_min(s: Seq<i64>, i: int) -> i64
    recommends
        1 <= i <= s.len(),
    decreases i,
{
    if i <= 1 {
        s[0]
    } else if s[i - 1] < fold_min(s, i - 1) {
        s[i - 1]
    } else {
        fold_min(s, i - 1)
    }
}

/// The greatest of the first `i` values.
pub open spec fn fold_max(s: Seq<i64>, i: int) -> i64
    recommends
        1 <= i <= s.len(),
    decreases i,
{
    if i <= 1 {
        s[0]
    } else if s[i - 1] > fold_max(s, i - 1) {
        s[i - 1]
    } else {
        fold_max(s, i - 1)
    }
}

/// The x coordinates of an orbit.
pub open spec fn xs_of(ps: Seq<OrbitPoint>) -> Seq<i64> {
    ps.map_values(|p: OrbitPoint| p.x)
}

/// The y coordinates of an orbit.
pub open spec fn ys_of(ps: Seq<OrbitPoint>) -> Seq<i64> {
    ps.map_values(|p: OrbitPoint| p.y)
}

/// The extrema of a non-empty orbit.
pub open spec fn orbit_bounds_spec(ps: Seq<OrbitPoint>) -> OrbitBounds {
    OrbitBounds {
        min_x: fold_min(xs_of(ps), ps.len() as int),
        max_x: fold_max(xs_of(ps), ps.len() as int),
        min_y: fold_min(ys_of(ps), ps.len() as int),
        max_y: fold_max(ys_of(ps), ps.len() as int),
    }
}

/// Every point lies within the bounds, axis by axis.
pub open spec fn bounds_contain(ps: Seq<OrbitPoint>, b: OrbitBounds) -> bool {
    forall|k: int|
        0 <= k < ps.len() ==> {
            &&& b.min_x <= (#[trigger] ps[k]).x <= b.max_x
            &&& b.min_y <= ps[k].y <= b.max_y
        }
}

/// The running minimum is a lower bound of the values it folded.
proof fn lemma_fold_min_le(s: Seq<i64>, i: int, k: int)
    requires
        0 <= k < i <= s.len(),
    ensures
        fold_min(s, i) <= s[k],
    decreases i,
{
    if i > 1 && k < i - 1 {
        lemma_fold_min_le(s, i - 1, k);
    }
}

/// The running maximum is an upper bound of the values it folded.
proof fn lemma_fold_max_ge(s: Seq<i64>, i: int, k: int)
    requires
        0 <= k < i <= s.len(),
    ensures
        fold_max(s, i) >= s[k],
    decreases i,
{
    if i > 1 && k < i - 1 {
        lemma_fold_max_ge(s, i - 1, k);
    }
}

/// Computes the extrema of a non-empty orbit; every point of the orbit
/// lies within them.
pub fn orbit_bounds(points: &Vec<OrbitPoint>) -> (b: OrbitBounds)
    requires
        points@.len() > 0,
    ensures
        b == orbit_bounds_spec(points@),
        bounds_contain(points@, b),
{
    let n = points.len();
    let first = points[0];
    let mut b = OrbitBounds { min_x: first.x, max_x: first.x, min_y: first.y, max_y: first.y };
    assert(xs_of(points@)[0] == first.x && ys_of(points@)[0] == first.y);
    for i in 1..n
        invariant
            n == points@.len(),
            1 <= i <= n,
            b.min_x == fold_min(xs_of(points@), i as int),
            b.max_x == fold_max(xs_of(points@), i as int),
            b.min_y == fold_min(ys_of(points@), i as int),
            b.max_y == fold_max(ys_of(points@), i as int),
    {
        let p = points[i];
        assert(xs_of(points@)[i as int] == p.x && ys_of(points@)[i as int] == p.y);
        if p.x < b.min_x {
            b.min_x = p.x;
        }
        if p.x > b.max_x {
            b.max_x = p.x;
        }
        if p.y < b.min_y {
            b.min_y = p.y;
        }
        if p.y > b.max_y {
            b.max_y = p.y;
        }
    }
    proof {
        assert forall|k: int| 0 <= k < points@.len() implies {
            &&& b.min_x <= (#[trigger] points@[k]).x <= b.max_x
            &&& b.min_y <= points@[k].y <= b.max_y
        } by {
            lemma_fold_min_le(xs_of(points@), points@.len() as int, k);
            lemma_fold_max_ge(xs_of(points@), points@.len() as int, k);
            lemma_fold_min_le(ys_of(points@), points@.len() as int, k);
            lemma_fold_max_ge(ys_of(points@), points@.len() as int, k);
            assert(xs_of(points@)[k] == points@[k].x && ys_of(points@)[k] == points@[k].y);
        }
    }
    b
}

/// Division rounding to the nearest integer, halves away from zero, for a
/// non-negative numerator and a positive denominator.
pub open spec fn round_div(n: int, d: int) -> int
    recommends
        n >= 0,
        d > 0,
{
    (2 * n + d) / (2 * d)
}

/// Where a coordinate lands on one axis of the raster: its offset within
/// the bounds, scaled to the axis extent and rounded to the nearest cell.
/// A collapsed axis maps every coordinate to the constant 0.
pub open spec fn scale_coord_spec(v: i64, lo: i64, hi: i64, extent: u32) -> int {
    if hi <= lo {
        0
    } else {
        round_div((v - lo) * extent, hi - lo)
    }
}

/// The raster cell of an orbit point: both axes scaled, the vertical axis
/// then inverted so that row 0 is the top row.
pub open spec fn pixel_of_spec(p: OrbitPoint, b: OrbitBounds, width: u32, height: u32) -> PixelCoord {
    PixelCoord {
        x: scale_coord_spec(p.x, b.min_x, b.max_x, width) as i32,
        y: (height - scale_coord_spec(p.y, b.min_y, b.max_y, height)) as i32,
    }
}

/// Scales one coordinate onto one axis; the answer lies in `[0, extent]`.
fn scale_coord(v: i64, lo: i64, hi: i64, extent: u32) -> (r: i32)
    requires
        lo <= v <= hi,
        1 <= extent <= MAX_RASTER_EXTENT,
    ensures
        r == scale_coord_spec(v, lo, hi, extent),
        0 <= r <= extent,
{
    if hi <= lo {
        return 0;
    }
    let off: u128 = (v as i128 - lo as i128) as u128;
    let den: u128 = (hi as i128 - lo as i128) as u128;
    proof {
        assert(off <= den <= 0xffff_ffff_ffff_ffffu128);
        assert(off * (extent as u128) <= den * (extent as u128)
            <= 0xffff_ffff_ffff_ffffu128 * 32768u128) by (nonlinear_arith)
            requires
                off <= den <= 0xffff_ffff_ffff_ffffu128,
                extent as u128 <= 32768u128,
        ;
    }
    let num: u128 = off * (extent as u128);
    proof {
        assert(2 * num + den <= 2 * (den * (extent as u128)) + den);
    }
    let q: u128 = (2 * num + den) / (2 * den);
    proof {
        lemma_div_pos_is_pos((2 * num + den) as int, (2 * den) as int);
        lemma_div_is_ordered(
            (2 * num + den) as int,
            (2 * (den * (extent as u128)) + den) as int,
            (2 * den) as int,
        );
        assert(2 * (den * (extent as u128)) + den == (2 * den) * (extent as u128) + den)
            by (nonlinear_arith);
        lemma_div_multiples_vanish_fancy(extent as int, den as int, (2 * den) as int);
    }
    q as i32
}

/// Quantizes every point of an orbit against the given bounds. With the
/// bounds of the orbits of all workers, this places independent orbits in
/// one shared coordinate frame; with the orbit's own bounds it is the
/// per-orbit normalization of `to_pixels`.
pub fn to_pixels_in(
    points: &Vec<OrbitPoint>,
    b: &OrbitBounds,
    width: u32,
    height: u32,
) -> (pixels: Vec<PixelPoint>)
    requires
        bounds_contain(points@, *b),
        1 <= width <= MAX_RASTER_EXTENT,
        1 <= height <= MAX_RASTER_EXTENT,
    ensures
        pixels@.len() == points@.len(),
        forall|k: int|
            0 <= k < points@.len() ==> {
                &&& (#[trigger] pixels@[k]).coord == pixel_of_spec(points@[k], *b, width, height)
                &&& pixels@[k].transform_index == points@[k].transform_index
            },
{
    let n = points.len();
    let mut pixels: Vec<PixelPoint> = Vec::new();
    for i in 0..n
        invariant
            n == points@.len(),
            bounds_contain(points@, *b),
            1 <= width <= MAX_RASTER_EXTENT,
            1 <= height <= MAX_RASTER_EXTENT,
            pixels@.len() == i,
            forall|k: int|
                0 <= k < i ==> {
                    &&& (#[trigger] pixels@[k]).coord == pixel_of_spec(
                        points@[k],
                        *b,
                        width,
                        height,
                    )
                    &&& pixels@[k].transform_index == points@[k].transform_index
                },
    {
        let p = points[i];
        let px = scale_coord(p.x, b.min_x, b.max_x, width);
        let py = scale_coord(p.y, b.min_y, b.max_y, height);
        pixels.push(
            PixelPoint {
                coord: PixelCoord { x: px, y: (height as i32) - py },
                transform_index: p.transform_index,
            },
        );
    }
    pixels
}

/// Quantizes an orbit against its own extrema. Each worker of a
/// distributed run normalizes this way, against its own local bounds; an
/// empty orbit yields an empty pixel list.
pub fn to_pixels(points: &Vec<OrbitPoint>, width: u32, height: u32) -> (pixels: Vec<PixelPoint>)
    requires
        1 <= width <= MAX_RASTER_EXTENT,
        1 <= height <= MAX_RASTER_EXTENT,
    ensures
        pixels@.len() == points@.len(),
        forall|k: int|
            0 <= k < points@.len() ==> {
                &&& (#[trigger] pixels@[k]).coord == pixel_of_spec(
                    points@[k],
                    orbit_bounds_spec(points@),
                    width,
                    height,
                )
                &&& pixels@[k].transform_index == points@[k].transform_index
            },
{
    if points.len() == 0 {
        Vec::new()
    } else {
        let b = orbit_bounds(points);
        to_pixels_in(points, &b, width, height)
    }
}

/// An orbit whose points are all the same maps every point onto the raster
/// cell `(0, height)`: both axes collapse, each scales to the constant 0,
/// and the vertical inversion turns the 0 row into row `height`.
pub proof fn lemma_degenerate_orbit_pixel(ps: Seq<OrbitPoint>, width: u32, height: u32)
    requires
        ps.len() > 0,
        forall|k: int| 0 <= k < ps.len() ==> (#[trigger] ps[k]).x == ps[0].x && ps[k].y == ps[0].y,
    ensures
        forall|k: int|
            0 <= k < ps.len() ==> pixel_of_spec(#[trigger] ps[k], orbit_bounds_spec(ps), width, height)
                == (PixelCoord { x: 0, y: height as i32 }),
{
    lemma_fold_constant(xs_of(ps), ps.len() as int);
    lemma_fold_constant(ys_of(ps), ps.len() as int);
    assert forall|k: int| 0 <= k < ps.len() implies pixel_of_spec(
        #[trigger] ps[k],
        orbit_bounds_spec(ps),
        width,
        height,
    ) == (PixelCoord { x: 0, y: height as i32 }) by {
        assert(xs_of(ps)[k] == ps[k].x && ys_of(ps)[k] == ps[k].y);
        assert(xs_of(ps)[0] == ps[0].x && ys_of(ps)[0] == ps[0].y);
    }
}

/// Folding a constant prefix gives equal extrema.
proof fn lemma_fold_constant(s: Seq<i64>, i: int)
    requires
        1 <= i <= s.len(),
        forall|k: int| 0 <= k < s.len() ==> #[trigger] s[k] == s[0],
    ensures
        fold_min(s, i) == s[0],
        fold_max(s, i) == s[0],
    decreases i,
{
    if i > 1 {
        lemma_fold_constant(s, i - 1);
    }
}

} // verus!
