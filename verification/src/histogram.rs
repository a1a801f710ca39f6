//! Folds pixel-tagged orbit points into a per-pixel record of color and
//! hit count. A pixel's first hit blends the transform's color with one
//! fixed reference color drawn per histogram build; every later hit blends
//! the entry's current color with the new transform's color — a running
//! blend that over-weights the most recent contributor, deliberately so,
//! not a true mean.

use vstd::prelude::*;
use crate::color::{Rgb, rgb_valid, blend, blend_spec};
use crate::normalize::{PixelCoord, PixelPoint};
use crate::transform::Transform;
use crate::transform_set::TransformSet;

verus! {

/// One histogram record: a raster cell, its blended color, and how many
/// orbit points landed on it.
#[derive(Clone, Copy, Debug, PartialEq, Eq, Structural)]
pub struct HistogramEntry {
    pub coord: PixelCoord,
    pub color: Rgb,
    pub hits: u32,
}

/// The index of the first entry holding the coordinate, or -1 if none
/// does.
pub open spec fn find_key(s: Seq<HistogramEntry>, c: PixelCoord) -> int
    decreases s.len(),
{
    if s.len() == 0 {
        -1
    } else if s[0].coord == c {
        0
    } else {
        let tail = find_key(s.drop_first(), c);
        if tail == -1 {
            -1
        } else {
            1 + tail
        }
    }
}

/// No two entries share a coordinate.
pub open spec fn keys_unique(s: Seq<HistogramEntry>) -> bool {
    forall|i: int, j: int|
        0 <= i < j < s.len() ==> (#[trigger] s[i]).coord != (#[trigger] s[j]).coord
}

/// Every entry's color is a valid RGB triple.
pub open spec fn entry_colors_valid(s: Seq<HistogramEntry>) -> bool {
    forall|i: int| 0 <= i < s.len() ==> rgb_valid((#[trigger] s[i]).color)
}

/// `find_key` answers the first index holding the coordinate.
pub proof fn lemma_find_key_at(s: Seq<HistogramEntry>, c: PixelCoord, i: int)
    requires
        0 <= i < s.len(),
        s[i].coord == c,
        forall|k: int| 0 <= k < i ==> (#[trigger] s[k]).coord != c,
    ensures
        find_key(s, c) == i,
    decreases s.len(),
{
    if i > 0 {
        let tail = s.drop_first();
        assert forall|k: int| 0 <= k < i - 1 implies (#[trigger] tail[k]).coord != c by {
            assert(tail[k] == s[k + 1]);
        }
        lemma_find_key_at(tail, c, i - 1);
    }
}

/// `find_key` answers -1 exactly when no entry holds the coordinate.
proof fn lemma_find_key_none(s: Seq<HistogramEntry>, c: PixelCoord)
    requires
        forall|k: int| 0 <= k < s.len() ==> (#[trigger] s[k]).coord != c,
    ensures
        find_key(s, c) == -1,
    decreases s.len(),
{
    if s.len() > 0 {
        let tail = s.drop_first();
        assert forall|k: int| 0 <= k < tail.len() implies (#[trigger] tail[k]).coord != c by {
            assert(tail[k] == s[k + 1]);
        }
        lemma_find_key_none(tail, c);
    }
}

/// What `find_key` answers is sound: -1 means the coordinate is absent,
/// and a non-negative answer is the first index holding it.
pub proof fn lemma_find_key_sound(s: Seq<HistogramEntry>, c: PixelCoord)
    ensures
        find_key(s, c) == -1 ==> forall|k: int| 0 <= k < s.len() ==> (#[trigger] s[k]).coord != c,
        find_key(s, c) != -1 ==> {
            &&& 0 <= find_key(s, c) < s.len()
            &&& s[find_key(s, c)].coord == c
            &&& forall|k: int| 0 <= k < find_key(s, c) ==> (#[trigger] s[k]).coord != c
        },
    decreases s.len(),
{
    if s.len() > 0 && s[0].coord != c {
        let tail = s.drop_first();
        lemma_find_key_sound(tail, c);
        if find_key(tail, c) == -1 {
            assert forall|k: int| 0 <= k < s.len() implies (#[trigger] s[k]).coord != c by {
                if k > 0 {
                    assert(tail[k - 1] == s[k]);
                }
            }
        } else {
            let i = 1 + find_key(tail, c);
            assert(s[i] == tail[i - 1]);
            assert forall|k: int| 0 <= k < i implies (#[trigger] s[k]).coord != c by {
                if k > 0 {
                    assert(tail[k - 1] == s[k]);
                }
            }
        }
    }
}

/// Scans a histogram's entries for a coordinate.
fn find_entry(entries: &Vec<HistogramEntry>, c: PixelCoord) -> (r: Option<usize>)
    ensures
        match r {
            Some(i) => i == find_key(entries@, c),
            None => find_key(entries@, c) == -1,
        },
{
    let n = entries.len();
    for i in 0..n
        invariant
            n == entries@.len(),
            forall|k: int| 0 <= k < i ==> (#[trigger] entries@[k]).coord != c,
    {
        if entries[i].coord.x == c.x && entries[i].coord.y == c.y {
            proof {
                lemma_find_key_at(entries@, c, i as int);
            }
            return Some(i);
        }
    }
    proof {
        lemma_find_key_none(entries@, c);
    }
    None
}

/// One point folded into the entries: a first hit creates the entry with
/// the reference blend and one hit; a later hit increments the count and
/// blends the entry's current color with the contributing transform's.
pub open spec fn accumulate_step(
    entries: Seq<HistogramEntry>,
    p: PixelPoint,
    tcolor: Rgb,
    ref_color: Rgb,
) -> Seq<HistogramEntry> {
    let i = find_key(entries, p.coord);
    if i == -1 {
        entries.push(
            HistogramEntry { coord: p.coord, color: blend_spec(ref_color, tcolor), hits: 1 },
        )
    } else {
        entries.update(
            i,
            HistogramEntry {
                coord: p.coord,
                color: blend_spec(entries[i].color, tcolor),
                hits: ((entries[i].hits + 1) as u32),
            },
        )
    }
}

/// The whole fold, point by point, in orbit order.
pub open spec fn accumulate_spec(
    pts: Seq<PixelPoint>,
    ts: Seq<Transform>,
    ref_color: Rgb,
) -> Seq<HistogramEntry>
    decreases pts.len(),
{
    if pts.len() == 0 {
        Seq::empty()
    } else {
        accumulate_step(
            accumulate_spec(pts.drop_last(), ts, ref_color),
            pts.last(),
            ts[pts.last().transform_index as int].color,
            ref_color,
        )
    }
}

/// How many of the points landed on a raster cell.
pub open spec fn hits_on(pts: Seq<PixelPoint>, c: PixelCoord) -> int
    decreases pts.len(),
{
    if pts.len() == 0 {
        0
    } else {
        hits_on(pts.drop_last(), c) + if pts.last().coord == c {
            1int
        } else {
            0int
        }
    }
}

/// A cell is hit by no more points than there are.
proof fn lemma_hits_on_bounded(pts: Seq<PixelPoint>, c: PixelCoord)
    ensures
        0 <= hits_on(pts, c) <= pts.len(),
    decreases pts.len(),
{
    if pts.len() > 0 {
        lemma_hits_on_bounded(pts.drop_last(), c);
    }
}

/// `find_key` reads only the coordinates: two entry lists with the same
/// coordinates in the same places are searched alike.
proof fn lemma_find_key_coords(s1: Seq<HistogramEntry>, s2: Seq<HistogramEntry>, c: PixelCoord)
    requires
        s1.len() == s2.len(),
        forall|k: int| 0 <= k < s1.len() ==> (#[trigger] s1[k]).coord == (#[trigger] s2[k]).coord,
    ensures
        find_key(s1, c) == find_key(s2, c),
    decreases s1.len(),
{
    if s1.len() > 0 && s1[0].coord != c {
        let t1 = s1.drop_first();
        let t2 = s2.drop_first();
        assert forall|k: int| 0 <= k < t1.len() implies (#[trigger] t1[k]).coord == (
        #[trigger] t2[k]).coord by {
            assert(t1[k] == s1[k + 1] && t2[k] == s2[k + 1]);
        }
        lemma_find_key_coords(t1, t2, c);
    }
}

/// Appending an entry of another coordinate does not change what
/// `find_key` answers for this one.
proof fn lemma_find_key_push_other(s: Seq<HistogramEntry>, e: HistogramEntry, c: PixelCoord)
    requires
        e.coord != c,
    ensures
        find_key(s.push(e), c) == find_key(s, c),
{
    lemma_find_key_sound(s, c);
    if find_key(s, c) == -1 {
        assert forall|k: int| 0 <= k < s.push(e).len() implies (#[trigger] s.push(e)[k]).coord
            != c by {
            if k < s.len() {
                assert(s.push(e)[k] == s[k]);
            }
        }
        lemma_find_key_none(s.push(e), c);
    } else {
        let i = find_key(s, c);
        assert(s.push(e)[i] == s[i]);
        assert forall|k: int| 0 <= k < i implies (#[trigger] s.push(e)[k]).coord != c by {
            assert(s.push(e)[k] == s[k]);
        }
        lemma_find_key_at(s.push(e), c, i);
    }
}

/// What the accumulator counts is the landing count: a raster cell has an
/// entry exactly when some point landed on it, and that entry's `hits` is
/// exactly how many of the points did. (The count is stored in a `u32`,
/// so the point list must be countable in one.)
pub proof fn lemma_accumulate_counts(
    pts: Seq<PixelPoint>,
    ts: Seq<Transform>,
    ref_color: Rgb,
    c: PixelCoord,
)
    requires
        pts.len() <= u32::MAX,
    ensures
        find_key(accumulate_spec(pts, ts, ref_color), c) == -1 <==> hits_on(pts, c) == 0,
        find_key(accumulate_spec(pts, ts, ref_color), c) != -1 ==> accumulate_spec(
            pts,
            ts,
            ref_color,
        )[find_key(accumulate_spec(pts, ts, ref_color), c)].hits == hits_on(pts, c),
    decreases pts.len(),
{
    if pts.len() == 0 {
        lemma_find_key_none(Seq::empty(), c);
    } else {
        let prefix = pts.drop_last();
        let p = pts.last();
        let h = accumulate_spec(prefix, ts, ref_color);
        let stepped = accumulate_spec(pts, ts, ref_color);
        lemma_accumulate_counts(prefix, ts, ref_color, c);
        lemma_hits_on_bounded(prefix, c);
        lemma_find_key_sound(h, c);
        let i = find_key(h, p.coord);
        if i == -1 {
            let e = HistogramEntry {
                coord: p.coord,
                color: blend_spec(ref_color, ts[p.transform_index as int].color),
                hits: 1,
            };
            assert(stepped == h.push(e));
            if p.coord == c {
                lemma_accumulate_counts(prefix, ts, ref_color, p.coord);
                assert forall|k: int| 0 <= k < h.len() implies (#[trigger] h[k]).coord != c by {
                    lemma_find_key_sound(h, c);
                }
                lemma_find_key_at(h.push(e), c, h.len() as int);
            } else {
                lemma_find_key_push_other(h, e, c);
                if find_key(h, c) != -1 {
                    assert(h.push(e)[find_key(h, c)] == h[find_key(h, c)]);
                }
            }
        } else {
            lemma_find_key_sound(h, p.coord);
            let e = HistogramEntry {
                coord: p.coord,
                color: blend_spec(h[i].color, ts[p.transform_index as int].color),
                hits: ((h[i].hits + 1) as u32),
            };
            assert(stepped == h.update(i, e));
            assert forall|k: int| 0 <= k < h.len() implies (#[trigger] h.update(i, e)[k]).coord
                == (#[trigger] h[k]).coord by {
                if k != i {
                    assert(h.update(i, e)[k] == h[k]);
                }
            }
            lemma_find_key_coords(h.update(i, e), h, c);
            if p.coord == c {
                lemma_accumulate_counts(prefix, ts, ref_color, p.coord);
                assert(h[i].hits == hits_on(prefix, c));
                lemma_hits_on_bounded(prefix, p.coord);
            } else {
                if find_key(h, c) != -1 {
                    assert(find_key(h, c) != i);
                    assert(h.update(i, e)[find_key(h, c)] == h[find_key(h, c)]);
                }
            }
        }
    }
}

/// A per-pixel map of color and density. The entries are in first-hit
/// order and no two share a coordinate.
pub struct Histogram {
    entries: Vec<HistogramEntry>,
}

impl Histogram {
    /// The records, in first-hit order.
    pub closed spec fn entries_seq(&self) -> Seq<HistogramEntry> {
        self.entries@
    }

    /// The representation invariant: one entry per distinct coordinate.
    pub open spec fn wf(&self) -> bool {
        keys_unique(self.entries_seq())
    }

    /// An empty histogram.
    pub fn new() -> (h: Histogram)
        ensures
            h.wf(),
            h.entries_seq() == Seq::<HistogramEntry>::empty(),
    {
        Histogram { entries: Vec::new() }
    }

    /// Wraps a record list that already has unique coordinates.
    pub fn from_entries(entries: Vec<HistogramEntry>) -> (h: Histogram)
        requires
            keys_unique(entries@),
        ensures
            h.wf(),
            h.entries_seq() == entries@,
    {
        Histogram { entries }
    }

    /// The records, for reading out.
    pub fn entries(&self) -> (r: &Vec<HistogramEntry>)
        ensures
            r@ == self.entries_seq(),
    {
        &self.entries
    }

    /// How many distinct raster cells were hit.
    pub fn len(&self) -> (n: usize)
        ensures
            n == self.entries_seq().len(),
    {
        self.entries.len()
    }

    /// Keeps the entry already present for the coordinate, or appends the
    /// offered one: the merge policy under which the first writer of a
    /// cell wins.
    pub fn insert_first_wins(&mut self, e: HistogramEntry)
        requires
            old(self).wf(),
        ensures
            final(self).wf(),
            final(self).entries_seq() == if find_key(old(self).entries_seq(), e.coord) == -1 {
                old(self).entries_seq().push(e)
            } else {
                old(self).entries_seq()
            },
    {
        match find_entry(&self.entries, e.coord) {
            Some(_) => {},
            None => {
                proof {
                    lemma_find_key_sound(self.entries@, e.coord);
                }
                self.entries.push(e);
            },
        }
    }
}

/// Draws the fixed reference color a histogram build blends into every
/// cell's first hit: the palette color of a uniform fraction. Whatever
/// the draw, the answer is the palette color of some fraction below one.
pub fn draw_reference_color(rng: &mut rand::rngs::StdRng) -> (c: Rgb)
    ensures
        rgb_valid(c),
        exists|v: i64| 0 <= v < crate::fx::FX_ONE && c == #[trigger] crate::color::color_map_spec(v),
{
    let v = crate::rng::draw_unit_fraction(rng);
    let c = crate::color::color_map(v);
    proof {
        assert(0 <= v < crate::fx::FX_ONE && c == crate::color::color_map_spec(v));
    }
    c
}

/// Folds a quantized orbit into a fresh histogram. The reference color is
/// drawn once per build by the caller; the hit counts are plain additive
/// counts, so the orbit must be countable in a `u32`.
pub fn accumulate(
    s: &TransformSet,
    pixel_points: &Vec<PixelPoint>,
    ref_color: Rgb,
) -> (h: Histogram)
    requires
        s.wf(),
        rgb_valid(ref_color),
        pixel_points@.len() <= u32::MAX,
        forall|k: int|
            0 <= k < pixel_points@.len() ==> (#[trigger] pixel_points@[k]).transform_index
                < s.transforms_seq().len(),
    ensures
        h.wf(),
        h.entries_seq() == accumulate_spec(pixel_points@, s.transforms_seq(), ref_color),
        entry_colors_valid(h.entries_seq()),
{
    proof {
        s.lemma_wf_config_valid();
    }
    let n = pixel_points.len();
    let mut entries: Vec<HistogramEntry> = Vec::new();
    for i in 0..n
        invariant
            s.wf(),
            rgb_valid(ref_color),
            n == pixel_points@.len(),
            n <= u32::MAX,
            forall|k: int|
                0 <= k < n ==> (#[trigger] pixel_points@[k]).transform_index
                    < s.transforms_seq().len(),
            entries@ == accumulate_spec(
                pixel_points@.take(i as int),
                s.transforms_seq(),
                ref_color,
            ),
            keys_unique(entries@),
            entry_colors_valid(entries@),
            forall|k: int| 0 <= k < entries@.len() ==> (#[trigger] entries@[k]).hits <= i,
    {
        proof {
            s.lemma_wf_config_valid();
            assert(pixel_points@.take(i + 1).drop_last() =~= pixel_points@.take(i as int));
            assert(pixel_points@.take(i + 1).last() == pixel_points@[i as int]);
        }
        let p = pixel_points[i];
        let tcolor = s.transform_at(p.transform_index).color;
        assert(rgb_valid(tcolor));
        match find_entry(&entries, p.coord) {
            None => {
                proof {
                    lemma_find_key_sound(entries@, p.coord);
                }
                entries.push(HistogramEntry { coord: p.coord, color: blend(ref_color, tcolor), hits: 1 });
            },
            Some(j) => {
                proof {
                    lemma_find_key_sound(entries@, p.coord);
                }
                let e = entries[j];
                let updated = HistogramEntry {
                    coord: e.coord,
                    color: blend(e.color, tcolor),
                    hits: e.hits + 1,
                };
                entries[j] = updated;
            },
        }
    }
    proof {
        assert(pixel_points@.take(n as int) =~= pixel_points@);
    }
    Histogram { entries }
}

} // verus!
