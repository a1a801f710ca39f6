//! An ordered, non-empty collection of weighted transforms, validated once
//! at construction, with weighted random selection. Selection works on the
//! cumulative weights: a uniform draw `r` from `[0, total)` picks the
//! unique index whose cumulative bracket contains `r`, so each index is
//! picked with probability `weight_i / total`.

use vstd::prelude::*;
use vstd::set_lib::set_int_range;
use crate::color::rgb_valid;
use crate::rng::draw_below;
use crate::transform::Transform;

verus! {

/// Why a transform list was rejected at construction.
#[derive(Clone, Copy, Debug, PartialEq, Eq, Structural)]
pub enum ConfigError {
    /// The list holds no transform at all.
    EmptyTransformList,
    /// Some weight is negative.
    NegativeWeight,
    /// Some color channel lies outside `[0, 1]`.
    ColorOutOfRange,
    /// The weights sum to more than a `u64` can count draws over.
    WeightSumTooLarge,
    /// The weights sum to zero, so no transform could ever be selected.
    NonPositiveWeightSum,
}

/// The weights of a transform list.
pub open spec fn weights_of(ts: Seq<Transform>) -> Seq<i64> {
    ts.map_values(|t: Transform| t.weight)
}

/// The sum of the first `i` weights.
pub open spec fn cum_weight(ws: Seq<i64>, i: int) -> int
    decreases i,
{
    if i <= 0 {
        0
    } else {
        cum_weight(ws, i - 1) + ws[i - 1]
    }
}

/// The sum of all weights.
pub open spec fn total_weight_of(ws: Seq<i64>) -> int {
    cum_weight(ws, ws.len() as int)
}

/// No weight is negative.
pub open spec fn weights_nonneg(ws: Seq<i64>) -> bool {
    forall|i: int| 0 <= i < ws.len() ==> #[trigger] ws[i] >= 0
}

/// Every color is a valid RGB triple.
pub open spec fn colors_valid(ts: Seq<Transform>) -> bool {
    forall|i: int| 0 <= i < ts.len() ==> rgb_valid(#[trigger] ts[i].color)
}

/// What construction demands of a transform list: non-empty, no negative
/// weight, valid colors, and a weight sum that is positive and countable
/// in a `u64`.
pub open spec fn config_valid(ts: Seq<Transform>) -> bool {
    &&& ts.len() > 0
    &&& weights_nonneg(weights_of(ts))
    &&& colors_valid(ts)
    &&& 0 < total_weight_of(weights_of(ts)) <= u64::MAX
}

/// The error construction answers for a transform list, if any, checks in
/// this order: emptiness, weight signs, colors, then the weight sum.
pub open spec fn config_error_of(ts: Seq<Transform>) -> Option<ConfigError> {
    let ws = weights_of(ts);
    if ts.len() == 0 {
        Some(ConfigError::EmptyTransformList)
    } else if !weights_nonneg(ws) {
        Some(ConfigError::NegativeWeight)
    } else if !colors_valid(ts) {
        Some(ConfigError::ColorOutOfRange)
    } else if total_weight_of(ws) > u64::MAX {
        Some(ConfigError::WeightSumTooLarge)
    } else if total_weight_of(ws) <= 0 {
        Some(ConfigError::NonPositiveWeightSum)
    } else {
        None
    }
}

/// The index the cumulative-weight scan answers for a draw `r`: the first
/// index whose bracket `[cum_weight(i), cum_weight(i) + ws[i])` contains
/// `r`.
pub open spec fn selected_index(ws: Seq<i64>, r: int) -> int
    decreases ws.len(),
{
    if ws.len() <= 1 {
        0
    } else if r < ws[0] {
        0
    } else {
        1 + selected_index(ws.drop_first(), r - ws[0])
    }
}

/// Cumulative weights of the tail, shifted by the head.
proof fn lemma_cum_drop_first(ws: Seq<i64>, i: int)
    requires
        ws.len() > 0,
        0 <= i <= ws.len() - 1,
    ensures
        cum_weight(ws.drop_first(), i) == cum_weight(ws, i + 1) - ws[0],
    decreases i,
{
    if i > 0 {
        lemma_cum_drop_first(ws, i - 1);
    } else {
        assert(cum_weight(ws.drop_first(), 0) == 0);
        assert(cum_weight(ws, 0) == 0);
        assert(cum_weight(ws, 1) == cum_weight(ws, 0) + ws[0]);
    }
}

/// Cumulative weights grow with the index when no weight is negative.
pub proof fn lemma_cum_monotonic(ws: Seq<i64>, i: int, j: int)
    requires
        weights_nonneg(ws),
        0 <= i <= j <= ws.len(),
    ensures
        cum_weight(ws, i) <= cum_weight(ws, j),
    decreases j - i,
{
    if i < j {
        lemma_cum_monotonic(ws, i, j - 1);
    }
}

/// Every draw below the total lands in the bracket of the index the scan
/// answers.
pub proof fn lemma_selected_in_bracket(ws: Seq<i64>, r: int)
    requires
        weights_nonneg(ws),
        ws.len() > 0,
        0 <= r < total_weight_of(ws),
    ensures
        0 <= selected_index(ws, r) < ws.len(),
        cum_weight(ws, selected_index(ws, r)) <= r,
        r < cum_weight(ws, selected_index(ws, r)) + ws[selected_index(ws, r)],
    decreases ws.len(),
{
    if ws.len() == 1 {
        assert(cum_weight(ws, 0) == 0);
        assert(cum_weight(ws, 1) == cum_weight(ws, 0) + ws[0]);
    } else if r < ws[0] {
        assert(cum_weight(ws, 0) == 0);
    } else {
        let tail = ws.drop_first();
        assert forall|k: int| 0 <= k < tail.len() implies #[trigger] tail[k] >= 0 by {
            assert(tail[k] == ws[k + 1]);
        }
        lemma_cum_drop_first(ws, ws.len() - 1);
        lemma_selected_in_bracket(tail, r - ws[0]);
        let si = selected_index(tail, r - ws[0]);
        lemma_cum_drop_first(ws, si);
    }
}

/// Only the index whose bracket contains the draw is answered: the
/// brackets partition `[0, total)`.
pub proof fn lemma_selected_unique(ws: Seq<i64>, r: int, i: int)
    requires
        weights_nonneg(ws),
        0 <= i < ws.len(),
        cum_weight(ws, i) <= r,
        r < cum_weight(ws, i) + ws[i],
    ensures
        selected_index(ws, r) == i,
    decreases ws.len(),
{
    if i == 0 {
        if ws.len() > 1 {
            assert(cum_weight(ws, 0) == 0);
        }
    } else {
        let tail = ws.drop_first();
        assert forall|k: int| 0 <= k < tail.len() implies #[trigger] tail[k] >= 0 by {
            assert(tail[k] == ws[k + 1]);
        }
        lemma_cum_monotonic(ws, 1, i);
        assert(cum_weight(ws, 0) == 0);
        assert(cum_weight(ws, 1) == cum_weight(ws, 0) + ws[0]);
        lemma_cum_drop_first(ws, i - 1);
        lemma_selected_unique(tail, r - ws[0], i - 1);
    }
}

/// The draws that select index `i` are exactly the `ws[i]` values of the
/// bracket `[cum_weight(i), cum_weight(i) + ws[i])`: among the
/// `total_weight_of(ws)` equally likely draws, index `i` is answered for
/// `ws[i]` of them, so the selection frequency of each index is its weight
/// over the weight sum.
pub proof fn lemma_selection_frequency(ws: Seq<i64>, i: int)
    requires
        weights_nonneg(ws),
        0 <= i < ws.len(),
    ensures
        Set::new(
            |r: int| 0 <= r < total_weight_of(ws) && selected_index(ws, r) == i,
        ) == set_int_range(cum_weight(ws, i), cum_weight(ws, i) + ws[i]),
        Set::new(|r: int| 0 <= r < total_weight_of(ws) && selected_index(ws, r) == i).finite(),
        Set::new(|r: int| 0 <= r < total_weight_of(ws) && selected_index(ws, r) == i).len()
            == ws[i],
{
    let picked = Set::new(|r: int| 0 <= r < total_weight_of(ws) && selected_index(ws, r) == i);
    let bracket = set_int_range(cum_weight(ws, i), cum_weight(ws, i) + ws[i]);
    assert forall|r: int| picked.contains(r) implies bracket.contains(r) by {
        lemma_selected_in_bracket(ws, r);
    }
    assert forall|r: int| bracket.contains(r) implies picked.contains(r) by {
        lemma_cum_monotonic(ws, 0, i);
        lemma_cum_monotonic(ws, i + 1, ws.len() as int);
        assert(cum_weight(ws, i + 1) == cum_weight(ws, i) + ws[i]);
        lemma_selected_unique(ws, r, i);
    }
    assert(picked =~= bracket);
    vstd::set_lib::lemma_int_range(cum_weight(ws, i), cum_weight(ws, i) + ws[i]);
}

/// An ordered, non-empty list of weighted transforms whose weight sum is
/// positive and fits a `u64`. Shared read-only by every sampling worker.
pub struct TransformSet {
    transforms: Vec<Transform>,
    total: u64,
}

impl TransformSet {
    /// The transforms, in order.
    pub closed spec fn transforms_seq(&self) -> Seq<Transform> {
        self.transforms@
    }

    /// The weights, in order.
    pub open spec fn weights(&self) -> Seq<i64> {
        weights_of(self.transforms_seq())
    }

    /// The construction invariant: a valid configuration whose cached
    /// weight sum is the sum of the weights.
    pub closed spec fn wf(&self) -> bool {
        &&& config_valid(self.transforms@)
        &&& self.total == total_weight_of(weights_of(self.transforms@))
    }

    /// A well-formed set is a valid configuration.
    pub proof fn lemma_wf_config_valid(&self)
        requires
            self.wf(),
        ensures
            config_valid(self.transforms_seq()),
            self.spec_total_weight() == total_weight_of(self.weights()),
    {
    }

    /// The cached weight sum.
    pub closed spec fn spec_total_weight(&self) -> u64 {
        self.total
    }

    /// Validates a transform list and builds the set. Fails, rather than
    /// at selection time, on an empty list, a negative weight, an invalid
    /// color, or a weight sum that is zero or uncountable; the answered
    /// error is exactly `config_error_of` the list.
    pub fn new(transforms: Vec<Transform>) -> (result: Result<TransformSet, ConfigError>)
        ensures
            match result {
                Ok(s) => {
                    &&& config_error_of(transforms@) is None
                    &&& s.wf()
                    &&& s.transforms_seq() == transforms@
                    &&& s.spec_total_weight() == total_weight_of(weights_of(transforms@))
                },
                Err(e) => config_error_of(transforms@) == Some(e),
            },
    {
        let ghost ws = weights_of(transforms@);
        let n = transforms.len();
        if n == 0 {
            return Err(ConfigError::EmptyTransformList);
        }
        for i in 0..n
            invariant
                n == transforms@.len(),
                ws == weights_of(transforms@),
                forall|k: int| 0 <= k < i ==> #[trigger] ws[k] >= 0,
        {
            if transforms[i].weight < 0 {
                assert(ws[i as int] < 0);
                return Err(ConfigError::NegativeWeight);
            }
        }
        for i in 0..n
            invariant
                n == transforms@.len(),
                ws == weights_of(transforms@),
                weights_nonneg(ws),
                forall|k: int| 0 <= k < i ==> rgb_valid(#[trigger] transforms@[k].color),
        {
            let c = transforms[i].color;
            if c.red < 0 || c.red > crate::fx::FX_ONE || c.green < 0 || c.green > crate::fx::FX_ONE
                || c.blue < 0 || c.blue > crate::fx::FX_ONE {
                assert(!rgb_valid(transforms@[i as int].color));
                return Err(ConfigError::ColorOutOfRange);
            }
        }
        let mut sum: u128 = 0;
        for i in 0..n
            invariant
                n == transforms@.len(),
                ws == weights_of(transforms@),
                weights_nonneg(ws),
                sum == cum_weight(ws, i as int),
                sum <= i * (i64::MAX as int),
        {
            assert(ws[i as int] == transforms@[i as int].weight);
            sum = sum + (transforms[i].weight as u128);
        }
        if sum > u64::MAX as u128 {
            return Err(ConfigError::WeightSumTooLarge);
        }
        if sum == 0 {
            return Err(ConfigError::NonPositiveWeightSum);
        }
        Ok(TransformSet { transforms, total: sum as u64 })
    }

    /// How many transforms the set holds.
    pub fn len(&self) -> (n: usize)
        ensures
            n == self.transforms_seq().len(),
    {
        self.transforms.len()
    }

    /// The transform at an index.
    pub fn transform_at(&self, i: usize) -> (t: &Transform)
        requires
            i < self.transforms_seq().len(),
        ensures
            *t == self.transforms_seq()[i as int],
    {
        &self.transforms[i]
    }

    /// The sum of the weights.
    pub fn total_weight(&self) -> (t: u64)
        ensures
            t == self.spec_total_weight(),
    {
        self.total
    }

    /// The index selected for a draw `r` from `[0, total)`: the unique
    /// index whose cumulative bracket contains `r`. Only an index of
    /// positive weight can be answered.
    pub fn select_for(&self, r: u64) -> (idx: usize)
        requires
            self.wf(),
            r < self.spec_total_weight(),
        ensures
            idx < self.transforms_seq().len(),
            idx == selected_index(self.weights(), r as int),
            self.weights()[idx as int] > 0,
            cum_weight(self.weights(), idx as int) <= r < cum_weight(self.weights(), idx as int)
                + self.weights()[idx as int],
    {
        let ghost ws = weights_of(self.transforms@);
        let n = self.transforms.len();
        let mut acc: u64 = 0;
        for i in 0..n
            invariant
                self.wf(),
                ws == self.weights(),
                n == self.transforms@.len(),
                acc == cum_weight(ws, i as int),
                acc <= r < self.spec_total_weight(),
        {
            let w = self.transforms[i].weight;
            assert(ws[i as int] == self.transforms@[i as int].weight);
            assert(w >= 0);
            proof {
                lemma_cum_monotonic(ws, i + 1, ws.len() as int);
            }
            if r < acc + (w as u64) {
                proof {
                    lemma_selected_unique(ws, r as int, i as int);
                }
                return i;
            }
            acc = acc + (w as u64);
        }
        proof {
            assert(acc == total_weight_of(ws));
            assert(false);
        }
        0
    }

    /// Selects a transform index at random: a uniform draw over the weight
    /// sum, then the cumulative scan. Whatever the draw, the answer is an
    /// index of positive weight.
    pub fn select(&self, rng: &mut rand::rngs::StdRng) -> (idx: usize)
        requires
            self.wf(),
        ensures
            idx < self.transforms_seq().len(),
            self.weights()[idx as int] > 0,
    {
        let r = draw_below(rng, self.total);
        self.select_for(r)
    }
}

} // verus!
