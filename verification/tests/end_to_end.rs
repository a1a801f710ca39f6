//! Whole-pipeline scenarios: one worker whose orbit collapses onto a
//! single raster cell, and two independent workers merged into one global
//! histogram.

use fractal_flame::codec::encode_histogram;
use fractal_flame::color::Rgb;
use fractal_flame::fx::FX_ONE;
use fractal_flame::histogram::{accumulate, draw_reference_color};
use fractal_flame::merge::merge_payloads;
use fractal_flame::normalize::{orbit_bounds, to_pixels, to_pixels_in};
use fractal_flame::sampler::{chaos_game, worker_share};
use fractal_flame::transform::{AffineMap, Transform, Variation};
use fractal_flame::transform_set::TransformSet;
use rand::SeedableRng;

const RED: Rgb = Rgb { red: FX_ONE, green: 0, blue: 0 };

fn identity_set() -> TransformSet {
    TransformSet::new(vec![Transform {
        affine: AffineMap { a: FX_ONE, b: 0, c: 0, d: 0, e: FX_ONE, f: 0 },
        variations: vec![Variation::Identity],
        weight: FX_ONE,
        color: RED,
    }])
    .unwrap()
}

#[test]
fn single_identity_transform_fills_one_cell() {
    // The identity transform pins the orbit to its random start, so after
    // the warmup every one of the 980 sampling-phase points lands on the
    // same raster cell: one entry, 980 hits, the transform's pure red.
    // The reference color is drawn as a real build draws it; 980 blends
    // toward red converge to exactly red whatever it came out as.
    let set = identity_set();
    let mut rng = rand::rngs::StdRng::seed_from_u64(2024);
    let orbit = chaos_game(&set, 1000, &mut rng);
    assert_eq!(orbit.len(), 980);
    let pixels = to_pixels(&orbit, 10, 10);
    let reference = draw_reference_color(&mut rng);
    assert_ne!(reference, RED);
    let histogram = accumulate(&set, &pixels, reference);
    assert_eq!(histogram.len(), 1);
    let e = histogram.entries()[0];
    assert_eq!(e.hits, 980);
    assert_eq!(e.color, RED);
    assert_eq!((e.coord.x, e.coord.y), (0, 10));
}

#[test]
fn worker_pass_collapses_identity_orbit_to_one_cell() {
    // The composed local pass — orbit, recenter, quantize, accumulate —
    // on the identity configuration: one cell, all retained points on it.
    let set = identity_set();
    let mut rng = rand::rngs::StdRng::seed_from_u64(99);
    let histogram = fractal_flame::worker::worker_histogram(&set, 500, 64, 64, &mut rng);
    assert_eq!(histogram.len(), 1);
    assert_eq!(histogram.entries()[0].hits, 480);
}

#[test]
fn two_workers_keep_their_own_cells() {
    // Two workers run the identity configuration from different seeds:
    // each orbit collapses onto its own start. Normalized in one shared
    // frame, the two starts land on different cells, and the merged
    // global histogram holds both entries with the per-worker hit counts,
    // not one combined entry.
    let set = identity_set();
    let share = worker_share(1000, 2);
    assert_eq!(share, 500);

    let mut rng_a = rand::rngs::StdRng::seed_from_u64(1);
    let mut rng_b = rand::rngs::StdRng::seed_from_u64(2);
    let orbit_a = chaos_game(&set, share, &mut rng_a);
    let orbit_b = chaos_game(&set, share, &mut rng_b);
    assert_eq!(orbit_a.len(), 480);
    assert_eq!(orbit_b.len(), 480);

    let mut all = orbit_a.clone();
    all.extend(orbit_b.iter().cloned());
    let shared_bounds = orbit_bounds(&all);
    let pixels_a = to_pixels_in(&orbit_a, &shared_bounds, 10, 10);
    let pixels_b = to_pixels_in(&orbit_b, &shared_bounds, 10, 10);
    assert_ne!(pixels_a[0].coord, pixels_b[0].coord);

    let hist_a = accumulate(&set, &pixels_a, draw_reference_color(&mut rng_a));
    let hist_b = accumulate(&set, &pixels_b, draw_reference_color(&mut rng_b));
    let bytes_a = encode_histogram(&hist_a);
    let bytes_b = encode_histogram(&hist_b);
    let sizes = vec![bytes_a.len(), bytes_b.len()];
    let mut concat = bytes_a.clone();
    concat.extend(bytes_b.iter().cloned());

    let global = merge_payloads(&concat, &sizes).unwrap();
    assert_eq!(global.len(), 2);
    assert!(global.entries().iter().all(|e| e.hits == 480));
}
