//! The chaos game's warmup bookkeeping and the coordinate normalizer.

use fractal_flame::color::Rgb;
use fractal_flame::fx::FX_ONE;
use fractal_flame::normalize::{orbit_bounds, to_pixels, to_pixels_in, update_coords};
use fractal_flame::sampler::{OrbitPoint, chaos_game, worker_share};
use fractal_flame::transform::{AffineMap, Transform, Variation};
use fractal_flame::transform_set::TransformSet;
use rand::SeedableRng;

fn fx(v: f64) -> i64 {
    (v * 4294967296.0).round() as i64
}

fn identity_set() -> TransformSet {
    TransformSet::new(vec![Transform {
        affine: AffineMap { a: FX_ONE, b: 0, c: 0, d: 0, e: FX_ONE, f: 0 },
        variations: vec![Variation::Identity],
        weight: FX_ONE,
        color: Rgb { red: FX_ONE, green: 0, blue: 0 },
    }])
    .unwrap()
}

#[test]
fn orbit_discards_exactly_the_warmup() {
    let set = identity_set();
    let mut rng = rand::rngs::StdRng::seed_from_u64(1);
    assert_eq!(chaos_game(&set, 1000, &mut rng).len(), 980);
    assert_eq!(chaos_game(&set, 21, &mut rng).len(), 1);
    assert_eq!(chaos_game(&set, 20, &mut rng).len(), 0);
    assert_eq!(chaos_game(&set, 19, &mut rng).len(), 0);
    assert_eq!(chaos_game(&set, 0, &mut rng).len(), 0);
}

#[test]
fn worker_share_splits_the_run() {
    assert_eq!(worker_share(1000, 2), 500);
    assert_eq!(worker_share(1000, 3), 333);
    assert_eq!(worker_share(7, 8), 0);
}

#[test]
fn orbit_points_carry_their_transform_tag() {
    let set = identity_set();
    let mut rng = rand::rngs::StdRng::seed_from_u64(5);
    let orbit = chaos_game(&set, 100, &mut rng);
    assert!(orbit.iter().all(|p| p.transform_index == 0));
}

#[test]
fn bounds_find_the_extrema() {
    let points = vec![
        OrbitPoint { x: fx(1.0), y: fx(-2.0), transform_index: 0 },
        OrbitPoint { x: fx(-3.0), y: fx(4.0), transform_index: 0 },
        OrbitPoint { x: fx(2.0), y: fx(0.0), transform_index: 0 },
    ];
    let b = orbit_bounds(&points);
    assert_eq!((b.min_x, b.max_x), (fx(-3.0), fx(2.0)));
    assert_eq!((b.min_y, b.max_y), (fx(-2.0), fx(4.0)));
}

#[test]
fn update_coords_applies_the_post_transform() {
    let points = vec![OrbitPoint { x: fx(1.0), y: fx(2.0), transform_index: 3 }];
    let post = AffineMap { a: FX_ONE, b: 0, c: fx(10.0), d: 0, e: FX_ONE, f: fx(-1.0) };
    let moved = update_coords(&points, &post);
    assert_eq!(moved.len(), 1);
    assert_eq!(moved[0].x, fx(11.0));
    assert_eq!(moved[0].y, fx(1.0));
    assert_eq!(moved[0].transform_index, 3);
}

#[test]
fn pixels_scale_into_the_raster() {
    let points = vec![
        OrbitPoint { x: fx(0.0), y: fx(0.0), transform_index: 0 },
        OrbitPoint { x: fx(1.0), y: fx(2.0), transform_index: 0 },
        OrbitPoint { x: fx(0.5), y: fx(1.0), transform_index: 0 },
    ];
    let pixels = to_pixels(&points, 100, 50);
    assert_eq!(pixels.len(), 3);
    // The extrema land on the raster edges; the vertical axis inverts.
    assert_eq!((pixels[0].coord.x, pixels[0].coord.y), (0, 50));
    assert_eq!((pixels[1].coord.x, pixels[1].coord.y), (100, 0));
    assert_eq!((pixels[2].coord.x, pixels[2].coord.y), (50, 25));
}

#[test]
fn single_point_orbit_maps_to_a_defined_pixel() {
    // Both axes collapse: no division happens and the point lands on the
    // raster corner (0, height).
    let points = vec![OrbitPoint { x: fx(0.37), y: fx(-1.81), transform_index: 0 }];
    let pixels = to_pixels(&points, 10, 10);
    assert_eq!(pixels.len(), 1);
    assert_eq!((pixels[0].coord.x, pixels[0].coord.y), (0, 10));
}

#[test]
fn identical_points_orbit_maps_to_a_defined_pixel() {
    let p = OrbitPoint { x: fx(2.5), y: fx(2.5), transform_index: 0 };
    let points = vec![p; 40];
    let pixels = to_pixels(&points, 640, 480);
    assert_eq!(pixels.len(), 40);
    assert!(pixels.iter().all(|q| (q.coord.x, q.coord.y) == (0, 480)));
}

#[test]
fn empty_orbit_yields_no_pixels() {
    let pixels = to_pixels(&Vec::new(), 10, 10);
    assert!(pixels.is_empty());
}

#[test]
fn shared_bounds_place_orbits_in_one_frame() {
    let a = vec![OrbitPoint { x: fx(0.0), y: fx(0.0), transform_index: 0 }];
    let b = vec![OrbitPoint { x: fx(1.0), y: fx(1.0), transform_index: 0 }];
    let mut all = a.clone();
    all.extend(b.iter().cloned());
    let shared = orbit_bounds(&all);
    let pa = to_pixels_in(&a, &shared, 10, 10);
    let pb = to_pixels_in(&b, &shared, 10, 10);
    assert_eq!((pa[0].coord.x, pa[0].coord.y), (0, 10));
    assert_eq!((pb[0].coord.x, pb[0].coord.y), (10, 0));
}
