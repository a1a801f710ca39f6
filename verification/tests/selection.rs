//! Construction validation and weighted selection of `TransformSet`.

use fractal_flame::color::Rgb;
use fractal_flame::fx::FX_ONE;
use fractal_flame::transform::{AffineMap, Transform, Variation};
use fractal_flame::transform_set::{ConfigError, TransformSet};
use rand::SeedableRng;

fn identity_affine() -> AffineMap {
    AffineMap { a: FX_ONE, b: 0, c: 0, d: 0, e: FX_ONE, f: 0 }
}

fn transform_with_weight(weight: i64) -> Transform {
    Transform {
        affine: identity_affine(),
        variations: vec![Variation::Identity],
        weight,
        color: Rgb { red: FX_ONE, green: 0, blue: 0 },
    }
}

#[test]
fn empty_list_fails_construction() {
    let result = TransformSet::new(Vec::new());
    assert_eq!(result.err(), Some(ConfigError::EmptyTransformList));
}

#[test]
fn all_zero_weights_fail_construction() {
    let result = TransformSet::new(vec![
        transform_with_weight(0),
        transform_with_weight(0),
        transform_with_weight(0),
    ]);
    assert_eq!(result.err(), Some(ConfigError::NonPositiveWeightSum));
}

#[test]
fn negative_weight_fails_construction() {
    let result = TransformSet::new(vec![transform_with_weight(5), transform_with_weight(-1)]);
    assert_eq!(result.err(), Some(ConfigError::NegativeWeight));
}

#[test]
fn out_of_range_color_fails_construction() {
    let mut t = transform_with_weight(1);
    t.color = Rgb { red: FX_ONE + 1, green: 0, blue: 0 };
    let result = TransformSet::new(vec![t]);
    assert_eq!(result.err(), Some(ConfigError::ColorOutOfRange));
}

#[test]
fn valid_list_constructs() {
    let set = TransformSet::new(vec![
        transform_with_weight(3),
        transform_with_weight(0),
        transform_with_weight(7),
    ])
    .unwrap();
    assert_eq!(set.len(), 3);
    assert_eq!(set.total_weight(), 10);
}

#[test]
fn select_for_covers_each_index_weight_many_times() {
    // Every draw below the weight sum picks the index whose cumulative
    // bracket holds it, so index i is picked for exactly weight_i draws.
    let set = TransformSet::new(vec![
        transform_with_weight(2),
        transform_with_weight(0),
        transform_with_weight(5),
        transform_with_weight(3),
    ])
    .unwrap();
    let mut counts = [0u64; 4];
    for r in 0..set.total_weight() {
        counts[set.select_for(r)] += 1;
    }
    assert_eq!(counts, [2, 0, 5, 3]);
}

#[test]
fn select_frequency_tracks_weights() {
    // The empirical frequency of each index converges to its weight over
    // the weight sum; with 60000 seeded draws over weights 1:2:3 the
    // counts stay within five percent of 10000, 20000 and 30000.
    let set = TransformSet::new(vec![
        transform_with_weight(1),
        transform_with_weight(2),
        transform_with_weight(3),
    ])
    .unwrap();
    let mut rng = rand::rngs::StdRng::seed_from_u64(7);
    let mut counts = [0i64; 3];
    for _ in 0..60000 {
        counts[set.select(&mut rng)] += 1;
    }
    assert!((counts[0] - 10000).abs() < 500, "index 0 drawn {} times", counts[0]);
    assert!((counts[1] - 20000).abs() < 1000, "index 1 drawn {} times", counts[1]);
    assert!((counts[2] - 30000).abs() < 1500, "index 2 drawn {} times", counts[2]);
}

#[test]
fn select_never_picks_zero_weight() {
    let set = TransformSet::new(vec![
        transform_with_weight(0),
        transform_with_weight(1),
        transform_with_weight(0),
    ])
    .unwrap();
    let mut rng = rand::rngs::StdRng::seed_from_u64(11);
    for _ in 0..200 {
        assert_eq!(set.select(&mut rng), 1);
    }
}
