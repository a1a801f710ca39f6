//! Merges the serialized histograms of all workers into one global
//! histogram. The exchange hands every worker the same concatenation of
//! all payloads and the same length vector; each worker cuts the
//! concatenation at the length boundaries (payloads are not equal-sized),
//! decodes every slice, and folds the records worker by worker under a
//! first-write-wins rule per raster cell. The whole merge is a function of
//! the payload bytes and the worker order alone, so every worker — and
//! every repeated run — computes the same global histogram.

use vstd::prelude::*;
use crate::codec::{CodecError, decode_histogram, decode_spec};
use crate::histogram::{Histogram, HistogramEntry, find_key, lemma_find_key_at, lemma_find_key_sound};
use crate::normalize::PixelCoord;

verus! {

/// One record folded in: a new cell is appended, an already-written cell
/// is left exactly as its first writer made it.
pub open spec fn first_wins_step(h: Seq<HistogramEntry>, e: HistogramEntry) -> Seq<
    HistogramEntry,
> {
    if find_key(h, e.coord) == -1 {
        h.push(e)
    } else {
        h
    }
}

/// A record list folded in, in order.
pub open spec fn fold_first_wins(h: Seq<HistogramEntry>, es: Seq<HistogramEntry>) -> Seq<
    HistogramEntry,
>
    decreases es.len(),
{
    if es.len() == 0 {
        h
    } else {
        first_wins_step(fold_first_wins(h, es.drop_last()), es.last())
    }
}

/// Where worker `w`'s payload starts in the concatenation: the sum of the
/// earlier workers' payload lengths.
pub open spec fn offset_of(sizes: Seq<usize>, w: int) -> int
    decreases w,
{
    if w <= 0 {
        0
    } else {
        offset_of(sizes, w - 1) + sizes[w - 1]
    }
}

/// The length of the whole concatenation.
pub open spec fn total_bytes(sizes: Seq<usize>) -> int {
    offset_of(sizes, sizes.len() as int)
}

/// Worker `w`'s slice of the concatenation.
pub open spec fn slice_at(concat: Seq<u8>, sizes: Seq<usize>, w: int) -> Seq<u8> {
    concat.subrange(offset_of(sizes, w), offset_of(sizes, w) + sizes[w])
}

/// All workers' slices, in worker order.
pub open spec fn chunks_of(concat: Seq<u8>, sizes: Seq<usize>) -> Seq<Seq<u8>> {
    Seq::new(sizes.len(), |w: int| slice_at(concat, sizes, w))
}

/// The merge over a list of payloads: each decoded in worker order, the
/// records folded first-write-wins; the first payload that fails to
/// decode fails the merge with its error.
pub open spec fn merge_chunks(chunks: Seq<Seq<u8>>) -> Result<Seq<HistogramEntry>, CodecError>
    decreases chunks.len(),
{
    if chunks.len() == 0 {
        Ok(Seq::empty())
    } else {
        match merge_chunks(chunks.drop_last()) {
            Err(e) => Err(e),
            Ok(h) => match decode_spec(chunks.last()) {
                Err(e) => Err(e),
                Ok(es) => Ok(fold_first_wins(h, es)),
            },
        }
    }
}

/// What the whole exchange merges to, from the concatenation and the
/// length vector alone.
pub open spec fn merge_spec(concat: Seq<u8>, sizes: Seq<usize>) -> Result<
    Seq<HistogramEntry>,
    CodecError,
> {
    merge_chunks(chunks_of(concat, sizes))
}

/// Offsets grow with the worker index.
proof fn lemma_offset_monotonic(sizes: Seq<usize>, i: int, j: int)
    requires
        0 <= i <= j <= sizes.len(),
    ensures
        offset_of(sizes, i) <= offset_of(sizes, j),
    decreases j - i,
{
    if i < j {
        lemma_offset_monotonic(sizes, i, j - 1);
    }
}

/// Once a prefix of the payload list fails to decode, the whole merge
/// fails with that prefix's error.
proof fn lemma_merge_error_persists(chunks: Seq<Seq<u8>>, w: int)
    requires
        0 <= w <= chunks.len(),
        merge_chunks(chunks.take(w)) is Err,
    ensures
        merge_chunks(chunks) == merge_chunks(chunks.take(w)),
    decreases chunks.len(),
{
    if w == chunks.len() {
        assert(chunks.take(w) =~= chunks);
    } else {
        assert(chunks.drop_last().take(w) =~= chunks.take(w));
        lemma_merge_error_persists(chunks.drop_last(), w);
    }
}

/// Appending a record does not move or change an already-found key.
proof fn lemma_find_key_push(s: Seq<HistogramEntry>, e: HistogramEntry, c: PixelCoord)
    requires
        find_key(s, c) != -1,
    ensures
        find_key(s.push(e), c) == find_key(s, c),
        s.push(e)[find_key(s, c)] == s[find_key(s, c)],
    decreases s.len(),
{
    lemma_find_key_sound(s, c);
    lemma_find_key_at_push(s, e, c);
}

/// Helper: the pushed sequence still finds the key first at the old index.
proof fn lemma_find_key_at_push(s: Seq<HistogramEntry>, e: HistogramEntry, c: PixelCoord)
    requires
        find_key(s, c) != -1,
    ensures
        find_key(s.push(e), c) == find_key(s, c),
    decreases s.len(),
{
    lemma_find_key_sound(s, c);
    let i = find_key(s, c);
    assert(s.push(e)[i] == s[i]);
    assert forall|k: int| 0 <= k < i implies (#[trigger] s.push(e)[k]).coord != c by {
        assert(s.push(e)[k] == s[k]);
    }
    lemma_find_key_at(s.push(e), c, i);
}

/// The first writer of a cell wins: once some worker's record for a cell
/// is in the accumulator, folding any further records — later workers'
/// included — neither moves nor changes it. With `merge_spec` a function
/// of the payloads and the worker order, repeated runs over the same
/// inputs merge every shared cell to the same color and count.
pub proof fn lemma_merge_first_write_wins(
    h: Seq<HistogramEntry>,
    es: Seq<HistogramEntry>,
    c: PixelCoord,
)
    requires
        find_key(h, c) != -1,
    ensures
        find_key(fold_first_wins(h, es), c) == find_key(h, c),
        fold_first_wins(h, es)[find_key(h, c)] == h[find_key(h, c)],
    decreases es.len(),
{
    if es.len() > 0 {
        lemma_merge_first_write_wins(h, es.drop_last(), c);
        let cur = fold_first_wins(h, es.drop_last());
        let e = es.last();
        if find_key(cur, e.coord) == -1 {
            lemma_find_key_push(cur, e, c);
        }
    }
}

/// Folds a decoded record list into a histogram, first-write-wins.
pub fn absorb_entries(h: &mut Histogram, es: &Vec<HistogramEntry>)
    requires
        old(h).wf(),
    ensures
        final(h).wf(),
        final(h).entries_seq() == fold_first_wins(old(h).entries_seq(), es@),
{
    let n = es.len();
    for i in 0..n
        invariant
            n == es@.len(),
            h.wf(),
            h.entries_seq() == fold_first_wins(old(h).entries_seq(), es@.take(i as int)),
    {
        h.insert_first_wins(es[i]);
        proof {
            assert(es@.take(i + 1).drop_last() =~= es@.take(i as int));
            assert(es@.take(i + 1).last() == es@[i as int]);
        }
    }
    proof {
        assert(es@.take(n as int) =~= es@);
    }
}

/// Cuts `len` bytes out of the concatenation, starting at `start`.
fn copy_range(b: &Vec<u8>, start: usize, len: usize) -> (out: Vec<u8>)
    requires
        start + len <= b@.len(),
    ensures
        out@ == b@.subrange(start as int, start as int + len as int),
{
    proof {
        assert(b.len() == b@.len());
    }
    let mut out: Vec<u8> = Vec::new();
    for j in 0..len
        invariant
            start + len <= b@.len(),
            b.len() == b@.len(),
            out@.len() == j,
            forall|k: int| 0 <= k < j ==> #[trigger] out@[k] == b@[start + k],
    {
        out.push(b[start + j]);
    }
    proof {
        assert(out@ =~= b@.subrange(start as int, start as int + len as int));
    }
    out
}

/// The reduce step of the distributed exchange: every worker calls this
/// on the gathered concatenation and the gathered length vector, and each
/// computes the same global histogram. A payload that fails to decode
/// fails the merge with that payload's error, before any corrupt record
/// reaches the result; per cell, the first worker in order that wrote the
/// cell fixes its color and count, and hit counts of later workers for
/// the same cell are not summed.
pub fn merge_payloads(concat: &Vec<u8>, sizes: &Vec<usize>) -> (r: Result<Histogram, CodecError>)
    requires
        total_bytes(sizes@) == concat@.len(),
    ensures
        match r {
            Ok(h) => {
                &&& h.wf()
                &&& merge_spec(concat@, sizes@) == Ok::<Seq<HistogramEntry>, CodecError>(
                    h.entries_seq(),
                )
            },
            Err(e) => merge_spec(concat@, sizes@) == Err::<Seq<HistogramEntry>, CodecError>(e),
        },
{
    let ghost chunks = chunks_of(concat@, sizes@);
    let mut h = Histogram::new();
    let mut offset: usize = 0;
    let nw = sizes.len();
    proof {
        assert(chunks.take(0) =~= Seq::<Seq<u8>>::empty());
    }
    for w in 0..nw
        invariant
            total_bytes(sizes@) == concat@.len(),
            concat.len() == concat@.len(),
            nw == sizes@.len(),
            chunks == chunks_of(concat@, sizes@),
            offset == offset_of(sizes@, w as int),
            h.wf(),
            merge_chunks(chunks.take(w as int)) == Ok::<Seq<HistogramEntry>, CodecError>(
                h.entries_seq(),
            ),
    {
        let sz = sizes[w];
        proof {
            lemma_offset_monotonic(sizes@, w + 1, nw as int);
            assert(offset_of(sizes@, w + 1) == offset + sz);
        }
        let chunk = copy_range(concat, offset, sz);
        proof {
            assert(chunks[w as int] == slice_at(concat@, sizes@, w as int));
            assert(chunk@ == chunks[w as int]);
            assert(chunks.take(w + 1).drop_last() =~= chunks.take(w as int));
            assert(chunks.take(w + 1).last() == chunks[w as int]);
        }
        match decode_histogram(&chunk) {
            Err(e) => {
                proof {
                    assert(merge_chunks(chunks.take(w + 1)) == Err::<
                        Seq<HistogramEntry>,
                        CodecError,
                    >(e));
                    lemma_merge_error_persists(chunks, w + 1);
                }
                return Err(e);
            },
            Ok(es) => {
                absorb_entries(&mut h, &es);
            },
        }
        offset = offset + sz;
    }
    proof {
        assert(chunks.take(nw as int) =~= chunks);
    }
    Ok(h)
}

} // verus!
