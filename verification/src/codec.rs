//! The byte-exact wire format for histogram records: a little-endian
//! record count, then 36 bytes per record (two pixel coordinates, three
//! color channels, the hit count), every field little-endian and signed
//! fields in two's complement. Decoding rejects a payload that is shorter
//! or longer than its count claims, and decoding an encoding gives back
//! exactly what was encoded.

use vstd::prelude::*;
use crate::color::Rgb;
use crate::histogram::{Histogram, HistogramEntry};
use crate::normalize::PixelCoord;

verus! {

/// Why a payload was rejected.
#[derive(Clone, Copy, Debug, PartialEq, Eq, Structural)]
pub enum CodecError {
    /// The payload ends before the record count or the records it claims.
    Truncated,
    /// The payload goes on after the records it claims.
    TrailingBytes,
}

/// The four little-endian bytes of a `u32`.
pub open spec fn u32_le_spec(v: u32) -> Seq<u8> {
    seq![
        (v & 0xff) as u8,
        ((v >> 8) & 0xff) as u8,
        ((v >> 16) & 0xff) as u8,
        ((v >> 24) & 0xff) as u8,
    ]
}

/// The `u32` read from four little-endian bytes.
pub open spec fn u32_of_spec(s: Seq<u8>) -> u32 {
    (s[0] as u32) | ((s[1] as u32) << 8) | ((s[2] as u32) << 16) | ((s[3] as u32) << 24)
}

/// The eight little-endian bytes of a `u64`.
pub open spec fn u64_le_spec(v: u64) -> Seq<u8> {
    seq![
        (v & 0xff) as u8,
        ((v >> 8) & 0xff) as u8,
        ((v >> 16) & 0xff) as u8,
        ((v >> 24) & 0xff) as u8,
        ((v >> 32) & 0xff) as u8,
        ((v >> 40) & 0xff) as u8,
        ((v >> 48) & 0xff) as u8,
        ((v >> 56) & 0xff) as u8,
    ]
}

/// The `u64` read from eight little-endian bytes.
pub open spec fn u64_of_spec(s: Seq<u8>) -> u64 {
    (s[0] as u64) | ((s[1] as u64) << 8) | ((s[2] as u64) << 16) | ((s[3] as u64) << 24) | ((s[4]
        as u64) << 32) | ((s[5] as u64) << 40) | ((s[6] as u64) << 48) | ((s[7] as u64) << 56)
}

/// An `i32` carried as its two's-complement `u32`.
pub open spec fn wire_of_i32(v: i32) -> u32 {
    if v >= 0 {
        v as u32
    } else {
        (v + 0x1_0000_0000) as u32
    }
}

/// The `i32` a two's-complement `u32` carries.
pub open spec fn i32_of_wire(u: u32) -> i32 {
    if u < 0x8000_0000 {
        u as i32
    } else {
        (u - 0x1_0000_0000) as i32
    }
}

/// An `i64` carried as its two's-complement `u64`.
pub open spec fn wire_of_i64(v: i64) -> u64 {
    if v >= 0 {
        v as u64
    } else {
        (v + 0x1_0000_0000_0000_0000) as u64
    }
}

/// The `i64` a two's-complement `u64` carries.
pub open spec fn i64_of_wire(u: u64) -> i64 {
    if u < 0x8000_0000_0000_0000 {
        u as i64
    } else {
        (u - 0x1_0000_0000_0000_0000) as i64
    }
}

/// Reading back four written bytes gives the written `u32`.
proof fn lemma_u32_roundtrip(v: u32)
    ensures
        u32_of_spec(u32_le_spec(v)) == v,
{
    assert((((v & 0xff) as u8) as u32) | ((((v >> 8) & 0xff) as u8) as u32) << 8 | ((((v >> 16)
        & 0xff) as u8) as u32) << 16 | ((((v >> 24) & 0xff) as u8) as u32) << 24 == v)
        by (bit_vector);
}

/// Reading back eight written bytes gives the written `u64`.
proof fn lemma_u64_roundtrip(v: u64)
    ensures
        u64_of_spec(u64_le_spec(v)) == v,
{
    assert((((v & 0xff) as u8) as u64) | ((((v >> 8) & 0xff) as u8) as u64) << 8 | ((((v >> 16)
        & 0xff) as u8) as u64) << 16 | ((((v >> 24) & 0xff) as u8) as u64) << 24 | ((((v >> 32)
        & 0xff) as u8) as u64) << 32 | ((((v >> 40) & 0xff) as u8) as u64) << 40 | ((((v >> 48)
        & 0xff) as u8) as u64) << 48 | ((((v >> 56) & 0xff) as u8) as u64) << 56 == v)
        by (bit_vector);
}

/// The two's-complement carrier reproduces the signed value.
proof fn lemma_i32_roundtrip(v: i32)
    ensures
        i32_of_wire(wire_of_i32(v)) == v,
{
}

/// The two's-complement carrier reproduces the signed value.
proof fn lemma_i64_roundtrip(v: i64)
    ensures
        i64_of_wire(wire_of_i64(v)) == v,
{
}

/// The 36 bytes of one record: x, y, red, green, blue, hits.
pub open spec fn entry_bytes(e: HistogramEntry) -> Seq<u8> {
    u32_le_spec(wire_of_i32(e.coord.x)) + u32_le_spec(wire_of_i32(e.coord.y)) + u64_le_spec(
        wire_of_i64(e.color.red),
    ) + u64_le_spec(wire_of_i64(e.color.green)) + u64_le_spec(wire_of_i64(e.color.blue))
        + u32_le_spec(e.hits)
}

/// The record read from 36 bytes.
pub open spec fn entry_of_spec(bs: Seq<u8>) -> HistogramEntry {
    HistogramEntry {
        coord: PixelCoord {
            x: i32_of_wire(u32_of_spec(bs.subrange(0, 4))),
            y: i32_of_wire(u32_of_spec(bs.subrange(4, 8))),
        },
        color: Rgb {
            red: i64_of_wire(u64_of_spec(bs.subrange(8, 16))),
            green: i64_of_wire(u64_of_spec(bs.subrange(16, 24))),
            blue: i64_of_wire(u64_of_spec(bs.subrange(24, 32))),
        },
        hits: u32_of_spec(bs.subrange(32, 36)),
    }
}

/// The records of a list, encoded one after another.
pub open spec fn records_bytes(s: Seq<HistogramEntry>) -> Seq<u8>
    decreases s.len(),
{
    if s.len() == 0 {
        Seq::empty()
    } else {
        records_bytes(s.drop_last()) + entry_bytes(s.last())
    }
}

/// A whole record list: the count, then the records.
pub open spec fn encode_spec(s: Seq<HistogramEntry>) -> Seq<u8> {
    u64_le_spec(s.len() as u64) + records_bytes(s)
}

/// What decoding answers for a payload: the records it carries, or why it
/// was rejected.
pub open spec fn decode_spec(b: Seq<u8>) -> Result<Seq<HistogramEntry>, CodecError> {
    if b.len() < 8 {
        Err(CodecError::Truncated)
    } else {
        let count = u64_of_spec(b.subrange(0, 8)) as int;
        if b.len() < 8 + 36 * count {
            Err(CodecError::Truncated)
        } else if b.len() > 8 + 36 * count {
            Err(CodecError::TrailingBytes)
        } else {
            Ok(
                Seq::new(
                    count as nat,
                    |k: int| entry_of_spec(b.subrange(8 + 36 * k, 8 + 36 * k + 36)),
                ),
            )
        }
    }
}

/// Each record occupies 36 bytes.
proof fn lemma_records_len(s: Seq<HistogramEntry>)
    ensures
        records_bytes(s).len() == 36 * s.len(),
    decreases s.len(),
{
    if s.len() > 0 {
        lemma_records_len(s.drop_last());
    }
}

/// The bytes of record `k` sit at offset `36 * k` of the record section.
proof fn lemma_records_slice(s: Seq<HistogramEntry>, k: int)
    requires
        0 <= k < s.len(),
    ensures
        records_bytes(s).subrange(36 * k, 36 * k + 36) == entry_bytes(s[k]),
    decreases s.len(),
{
    lemma_records_len(s);
    lemma_records_len(s.drop_last());
    if k == s.len() - 1 {
        assert(records_bytes(s).subrange(36 * k, 36 * k + 36) =~= entry_bytes(s.last()));
    } else {
        lemma_records_slice(s.drop_last(), k);
        assert(records_bytes(s).subrange(36 * k, 36 * k + 36) =~= records_bytes(
            s.drop_last(),
        ).subrange(36 * k, 36 * k + 36));
    }
}

/// Reading back a written record gives the written record.
proof fn lemma_entry_roundtrip(e: HistogramEntry)
    ensures
        entry_of_spec(entry_bytes(e)) == e,
{
    let bs = entry_bytes(e);
    assert(bs.subrange(0, 4) =~= u32_le_spec(wire_of_i32(e.coord.x)));
    assert(bs.subrange(4, 8) =~= u32_le_spec(wire_of_i32(e.coord.y)));
    assert(bs.subrange(8, 16) =~= u64_le_spec(wire_of_i64(e.color.red)));
    assert(bs.subrange(16, 24) =~= u64_le_spec(wire_of_i64(e.color.green)));
    assert(bs.subrange(24, 32) =~= u64_le_spec(wire_of_i64(e.color.blue)));
    assert(bs.subrange(32, 36) =~= u32_le_spec(e.hits));
    lemma_u32_roundtrip(wire_of_i32(e.coord.x));
    lemma_u32_roundtrip(wire_of_i32(e.coord.y));
    lemma_u64_roundtrip(wire_of_i64(e.color.red));
    lemma_u64_roundtrip(wire_of_i64(e.color.green));
    lemma_u64_roundtrip(wire_of_i64(e.color.blue));
    lemma_u32_roundtrip(e.hits);
    lemma_i32_roundtrip(e.coord.x);
    lemma_i32_roundtrip(e.coord.y);
    lemma_i64_roundtrip(e.color.red);
    lemma_i64_roundtrip(e.color.green);
    lemma_i64_roundtrip(e.color.blue);
}

/// The round trip: decoding an encoding reproduces the record list
/// exactly — the same keys, the same colors, the same hit counts, in the
/// same order — whatever its size, the empty list included.
pub proof fn lemma_codec_roundtrip(s: Seq<HistogramEntry>)
    requires
        s.len() <= u64::MAX,
    ensures
        decode_spec(encode_spec(s)) == Ok::<Seq<HistogramEntry>, CodecError>(s),
{
    let b = encode_spec(s);
    lemma_records_len(s);
    lemma_u64_roundtrip(s.len() as u64);
    assert(b.subrange(0, 8) =~= u64_le_spec(s.len() as u64));
    let count = u64_of_spec(b.subrange(0, 8)) as int;
    assert(count == s.len());
    assert(b.len() == 8 + 36 * count);
    let decoded = Seq::new(
        count as nat,
        |k: int| entry_of_spec(b.subrange(8 + 36 * k, 8 + 36 * k + 36)),
    );
    assert forall|k: int| 0 <= k < s.len() implies decoded[k] == s[k] by {
        lemma_records_slice(s, k);
        assert(b.subrange(8 + 36 * k, 8 + 36 * k + 36) =~= records_bytes(s).subrange(
            36 * k,
            36 * k + 36,
        ));
        lemma_entry_roundtrip(s[k]);
    }
    assert(decoded =~= s);
}

/// Appends the four little-endian bytes of a `u32`.
fn push_u32(out: &mut Vec<u8>, v: u32)
    ensures
        final(out)@ == old(out)@ + u32_le_spec(v),
{
    proof {
        assert((v & 0xff) < 256 && ((v >> 8) & 0xff) < 256 && ((v >> 16) & 0xff) < 256 && ((v
            >> 24) & 0xff) < 256) by (bit_vector);
    }
    out.push((v & 0xff) as u8);
    out.push(((v >> 8) & 0xff) as u8);
    out.push(((v >> 16) & 0xff) as u8);
    out.push(((v >> 24) & 0xff) as u8);
    proof {
        assert(out@ =~= old(out)@ + u32_le_spec(v));
    }
}

/// Appends the eight little-endian bytes of a `u64`.
fn push_u64(out: &mut Vec<u8>, v: u64)
    ensures
        final(out)@ == old(out)@ + u64_le_spec(v),
{
    proof {
        assert((v & 0xff) < 256 && ((v >> 8) & 0xff) < 256 && ((v >> 16) & 0xff) < 256 && ((v
            >> 24) & 0xff) < 256 && ((v >> 32) & 0xff) < 256 && ((v >> 40) & 0xff) < 256 && ((v
            >> 48) & 0xff) < 256 && ((v >> 56) & 0xff) < 256) by (bit_vector);
    }
    out.push((v & 0xff) as u8);
    out.push(((v >> 8) & 0xff) as u8);
    out.push(((v >> 16) & 0xff) as u8);
    out.push(((v >> 24) & 0xff) as u8);
    out.push(((v >> 32) & 0xff) as u8);
    out.push(((v >> 40) & 0xff) as u8);
    out.push(((v >> 48) & 0xff) as u8);
    out.push(((v >> 56) & 0xff) as u8);
    proof {
        assert(out@ =~= old(out)@ + u64_le_spec(v));
    }
}

/// The two's-complement carrier of an `i32`.
fn wire_u32(v: i32) -> (r: u32)
    ensures
        r == wire_of_i32(v),
{
    if v >= 0 {
        v as u32
    } else {
        ((v as i64) + 4294967296i64) as u32
    }
}

/// The two's-complement carrier of an `i64`.
fn wire_u64(v: i64) -> (r: u64)
    ensures
        r == wire_of_i64(v),
{
    if v >= 0 {
        v as u64
    } else {
        ((v as i128) + 18446744073709551616i128) as u64
    }
}

/// The `i32` a carrier holds.
fn unwire_i32(u: u32) -> (r: i32)
    ensures
        r == i32_of_wire(u),
{
    if u < 0x8000_0000 {
        u as i32
    } else {
        ((u as i64) - 4294967296i64) as i32
    }
}

/// The `i64` a carrier holds.
fn unwire_i64(u: u64) -> (r: i64)
    ensures
        r == i64_of_wire(u),
{
    if u < 0x8000_0000_0000_0000 {
        u as i64
    } else {
        ((u as i128) - 18446744073709551616i128) as i64
    }
}

/// Appends the 36 bytes of one record.
fn push_entry(out: &mut Vec<u8>, e: &HistogramEntry)
    ensures
        final(out)@ == old(out)@ + entry_bytes(*e),
{
    push_u32(out, wire_u32(e.coord.x));
    push_u32(out, wire_u32(e.coord.y));
    push_u64(out, wire_u64(e.color.red));
    push_u64(out, wire_u64(e.color.green));
    push_u64(out, wire_u64(e.color.blue));
    push_u32(out, e.hits);
    proof {
        assert(out@ =~= old(out)@ + entry_bytes(*e));
    }
}

/// Encodes a histogram for the exchange: the record count, then every
/// record, in the histogram's entry order.
pub fn encode_histogram(h: &Histogram) -> (bytes: Vec<u8>)
    ensures
        bytes@ == encode_spec(h.entries_seq()),
{
    let entries = h.entries();
    let n = entries.len();
    let mut out: Vec<u8> = Vec::new();
    push_u64(&mut out, n as u64);
    proof {
        assert(entries@.take(0) =~= Seq::<HistogramEntry>::empty());
        assert(out@ =~= u64_le_spec(entries@.len() as u64) + records_bytes(entries@.take(0)));
    }
    for i in 0..n
        invariant
            n == entries@.len(),
            out@ == u64_le_spec(entries@.len() as u64) + records_bytes(entries@.take(i as int)),
    {
        let e = entries[i];
        push_entry(&mut out, &e);
        proof {
            assert(entries@.take(i + 1).drop_last() =~= entries@.take(i as int));
            assert(entries@.take(i + 1).last() == entries@[i as int]);
            assert(out@ =~= u64_le_spec(entries@.len() as u64) + records_bytes(
                entries@.take(i + 1),
            ));
        }
    }
    proof {
        assert(entries@.take(n as int) =~= entries@);
    }
    out
}

/// Reads the `u32` at an offset.
fn read_u32(b: &Vec<u8>, off: usize) -> (v: u32)
    requires
        off + 4 <= b@.len(),
    ensures
        v == u32_of_spec(b@.subrange(off as int, off as int + 4)),
{
    proof {
        assert(b.len() == b@.len());
    }
    let v = (b[off] as u32) | ((b[off + 1] as u32) << 8) | ((b[off + 2] as u32) << 16) | ((b[off
        + 3] as u32) << 24);
    proof {
        let s = b@.subrange(off as int, off as int + 4);
        assert(s[0] == b@[off as int] && s[1] == b@[off as int + 1] && s[2] == b@[off as int + 2]
            && s[3] == b@[off as int + 3]);
    }
    v
}

/// Reads the `u64` at an offset.
fn read_u64(b: &Vec<u8>, off: usize) -> (v: u64)
    requires
        off + 8 <= b@.len(),
    ensures
        v == u64_of_spec(b@.subrange(off as int, off as int + 8)),
{
    proof {
        assert(b.len() == b@.len());
    }
    let v = (b[off] as u64) | ((b[off + 1] as u64) << 8) | ((b[off + 2] as u64) << 16) | ((b[off
        + 3] as u64) << 24) | ((b[off + 4] as u64) << 32) | ((b[off + 5] as u64) << 40) | ((b[off
        + 6] as u64) << 48) | ((b[off + 7] as u64) << 56);
    proof {
        let s = b@.subrange(off as int, off as int + 8);
        assert(s[0] == b@[off as int] && s[1] == b@[off as int + 1] && s[2] == b@[off as int + 2]
            && s[3] == b@[off as int + 3] && s[4] == b@[off as int + 4] && s[5] == b@[off as int
            + 5] && s[6] == b@[off as int + 6] && s[7] == b@[off as int + 7]);
    }
    v
}

/// Reads the record at an offset.
fn read_entry(b: &Vec<u8>, off: usize) -> (e: HistogramEntry)
    requires
        off + 36 <= b@.len(),
    ensures
        e == entry_of_spec(b@.subrange(off as int, off as int + 36)),
{
    proof {
        assert(b.len() == b@.len());
    }
    let x = unwire_i32(read_u32(b, off));
    let y = unwire_i32(read_u32(b, off + 4));
    let red = unwire_i64(read_u64(b, off + 8));
    let green = unwire_i64(read_u64(b, off + 16));
    let blue = unwire_i64(read_u64(b, off + 24));
    let hits = read_u32(b, off + 32);
    proof {
        let bs = b@.subrange(off as int, off as int + 36);
        assert(bs.subrange(0, 4) =~= b@.subrange(off as int, off as int + 4));
        assert(bs.subrange(4, 8) =~= b@.subrange(off as int + 4, off as int + 8));
        assert(bs.subrange(8, 16) =~= b@.subrange(off as int + 8, off as int + 16));
        assert(bs.subrange(16, 24) =~= b@.subrange(off as int + 16, off as int + 24));
        assert(bs.subrange(24, 32) =~= b@.subrange(off as int + 24, off as int + 32));
        assert(bs.subrange(32, 36) =~= b@.subrange(off as int + 32, off as int + 36));
    }
    HistogramEntry { coord: PixelCoord { x, y }, color: Rgb { red, green, blue }, hits }
}

/// Decodes a payload into its record list. The list may hold what a
/// foreign worker sent, duplicate coordinates included; merging, not
/// decoding, resolves those. Errors surface before any merge happens.
pub fn decode_histogram(bytes: &Vec<u8>) -> (r: Result<Vec<HistogramEntry>, CodecError>)
    ensures
        match r {
            Ok(es) => decode_spec(bytes@) == Ok::<Seq<HistogramEntry>, CodecError>(es@),
            Err(e) => decode_spec(bytes@) == Err::<Seq<HistogramEntry>, CodecError>(e),
        },
{
    if bytes.len() < 8 {
        return Err(CodecError::Truncated);
    }
    let count = read_u64(bytes, 0);
    let avail = (bytes.len() - 8) as u64;
    proof {
        vstd::arithmetic::div_mod::lemma_fundamental_div_mod(avail as int, 36);
    }
    if count > avail / 36 {
        return Err(CodecError::Truncated);
    }
    if count < avail / 36 || avail % 36 != 0 {
        return Err(CodecError::TrailingBytes);
    }
    let cnt = (count as usize);
    let mut out: Vec<HistogramEntry> = Vec::new();
    let ghost decoded = Seq::new(
        count as nat,
        |k: int| entry_of_spec(bytes@.subrange(8 + 36 * k, 8 + 36 * k + 36)),
    );
    for k in 0..cnt
        invariant
            bytes.len() == bytes@.len(),
            bytes@.len() == 8 + 36 * (cnt as int),
            decoded == Seq::new(
                cnt as nat,
                |j: int| entry_of_spec(bytes@.subrange(8 + 36 * j, 8 + 36 * j + 36)),
            ),
            out@.len() == k,
            forall|j: int| 0 <= j < k ==> out@[j] == decoded[j],
    {
        let e = read_entry(bytes, 8 + 36 * k);
        out.push(e);
    }
    proof {
        assert(out@ =~= decoded);
    }
    Ok(out)
}

} // verus!
