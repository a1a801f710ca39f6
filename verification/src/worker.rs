//! One worker's whole local pass, composed from the verified stages: run
//! the chaos game, recenter the orbit into non-negative coordinates,
//! quantize it against its own extrema, and fold it into a local
//! histogram. The orbit and the reference color are random, so the
//! contract promises what holds of every outcome: a well-formed histogram
//! of valid colors whose hit counts came from the quantized orbit.

use vstd::prelude::*;
use crate::color::{Rgb, rgb_valid};
use crate::fx::FX_ONE;
use crate::histogram::{Histogram, accumulate, accumulate_spec, draw_reference_color, entry_colors_valid};
use crate::normalize::{MAX_RASTER_EXTENT, PixelPoint, orbit_bounds, to_pixels, update_coords};
use crate::sampler::{chaos_game, retained_count};
use crate::transform::AffineMap;
use crate::transform_set::TransformSet;

verus! {

/// The magnitude of a coordinate, saturated at `i64::MAX`.
pub open spec fn magnitude_spec(v: i64) -> i64 {
    if v == i64::MIN {
        i64::MAX
    } else if v < 0 {
        (-v) as i64
    } else {
        v
    }
}

fn magnitude(v: i64) -> (r: i64)
    ensures
        r == magnitude_spec(v),
{
    if v == i64::MIN {
        i64::MAX
    } else if v < 0 {
        -v
    } else {
        v
    }
}

/// Builds one worker's local histogram: the chaos game for `iterations`
/// iterations, a post-transform that shifts the orbit by the magnitudes
/// of its own minima, per-orbit normalization onto `width x height`
/// pixels, and the accumulation under a freshly drawn reference color.
/// The orbit and the reference color are random, but whatever they came
/// out as, the answer is the accumulation of one quantized point per
/// retained iteration, each tagged with a transform of the set — so the
/// histogram's hit counts total the orbit length, and the histogram is
/// never empty when anything was retained.
pub fn worker_histogram(
    s: &TransformSet,
    iterations: u32,
    width: u32,
    height: u32,
    rng: &mut rand::rngs::StdRng,
) -> (h: Histogram)
    requires
        s.wf(),
        1 <= width <= MAX_RASTER_EXTENT,
        1 <= height <= MAX_RASTER_EXTENT,
    ensures
        h.wf(),
        entry_colors_valid(h.entries_seq()),
        exists|pts: Seq<PixelPoint>, rc: Rgb|
            {
                &&& rgb_valid(rc)
                &&& pts.len() == retained_count(iterations)
                &&& forall|k: int|
                    0 <= k < pts.len() ==> (#[trigger] pts[k]).transform_index
                        < s.transforms_seq().len()
                &&& h.entries_seq() == #[trigger] accumulate_spec(pts, s.transforms_seq(), rc)
            },
{
    let orbit = chaos_game(s, iterations, rng);
    let recentered = if orbit.len() == 0 {
        orbit
    } else {
        let b = orbit_bounds(&orbit);
        let post = AffineMap {
            a: FX_ONE,
            b: 0,
            c: magnitude(b.min_x),
            d: 0,
            e: FX_ONE,
            f: magnitude(b.min_y),
        };
        update_coords(&orbit, &post)
    };
    let pixels = to_pixels(&recentered, width, height);
    let reference = draw_reference_color(rng);
    let h = accumulate(s, &pixels, reference);
    proof {
        assert(rgb_valid(reference));
        assert(pixels@.len() == retained_count(iterations));
        assert(h.entries_seq() == accumulate_spec(pixels@, s.transforms_seq(), reference));
    }
    h
}

} // verus!
