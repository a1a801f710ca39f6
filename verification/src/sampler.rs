//! The chaos game: one evolving point, repeatedly pushed through a
//! randomly selected transform. The first `WARMUP` iterations advance the
//! point but are discarded, so the orbit has converged toward the
//! attractor before points are recorded.

use vstd::prelude::*;
use crate::rng::draw_start_coordinate;
use crate::transform::transform_apply_spec;
use crate::transform_set::TransformSet;

verus! {

/// How many leading iterations are computed but not recorded.
pub const WARMUP: u32 = 20;

/// One recorded orbit entry: the point after the iteration's transform,
/// tagged with the index of the transform that produced it.
#[derive(Clone, Copy, Debug, PartialEq, Eq, Structural)]
pub struct OrbitPoint {
    pub x: i64,
    pub y: i64,
    pub transform_index: usize,
}

/// Every recorded entry carries the index of a transform of the set, and
/// only a transform of positive weight can ever be selected.
pub open spec fn orbit_tags_valid(orbit: Seq<OrbitPoint>, s: &TransformSet) -> bool {
    forall|k: int|
        0 <= k < orbit.len() ==> {
            &&& (#[trigger] orbit[k]).transform_index < s.transforms_seq().len()
            &&& s.weights()[orbit[k].transform_index as int] > 0
        }
}

/// The orbit is one evolving point: each recorded entry is the image of
/// the previous entry's point under the transform the entry is tagged
/// with — no branching and no backtracking.
pub open spec fn orbit_chained(orbit: Seq<OrbitPoint>, s: &TransformSet) -> bool {
    forall|k: int|
        1 <= k < orbit.len() ==> ((#[trigger] orbit[k]).x, orbit[k].y) == transform_apply_spec(
            s.transforms_seq()[orbit[k].transform_index as int],
            orbit[k - 1].x,
            orbit[k - 1].y,
        )
}

/// How many entries an orbit of `iterations` iterations retains: all but
/// the warmup, and none at all when the run is shorter than the warmup.
pub open spec fn retained_count(iterations: u32) -> int {
    if iterations >= WARMUP {
        iterations - WARMUP
    } else {
        0
    }
}

/// Runs the chaos game for `iterations` iterations. The orbit is a single
/// evolving point: the start is drawn uniformly from `[-1, 1)^2`, and each
/// iteration feeds the previous iteration's output through a freshly
/// selected transform. Iterations before `WARMUP` only advance the point;
/// the rest are recorded with their transform's index.
pub fn chaos_game(s: &TransformSet, iterations: u32, rng: &mut rand::rngs::StdRng) -> (orbit: Vec<
    OrbitPoint,
>)
    requires
        s.wf(),
    ensures
        orbit@.len() == retained_count(iterations),
        orbit_tags_valid(orbit@, s),
        orbit_chained(orbit@, s),
{
    let mut x = draw_start_coordinate(rng);
    let mut y = draw_start_coordinate(rng);
    let mut orbit: Vec<OrbitPoint> = Vec::new();
    for i in 0..iterations
        invariant
            s.wf(),
            orbit@.len() == retained_count(i),
            orbit_tags_valid(orbit@, s),
            orbit_chained(orbit@, s),
            orbit@.len() > 0 ==> orbit@.last().x == x && orbit@.last().y == y,
    {
        let idx = s.select(rng);
        let t = s.transform_at(idx);
        let p = t.apply(x, y);
        x = p.0;
        y = p.1;
        if i >= WARMUP {
            orbit.push(OrbitPoint { x, y, transform_index: idx });
        }
    }
    orbit
}

/// The share of a run each of `size` parallel workers executes: each
/// worker runs its own independent orbit of `total / size` iterations,
/// with its own start and its own random stream.
pub fn worker_share(total: u32, size: u32) -> (share: u32)
    requires
        size >= 1,
    ensures
        share == total as int / size as int,
{
    total / size
}

} // verus!
