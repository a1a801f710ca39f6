//! The wire format's round trip and errors, and the first-write-wins
//! merge of the distributed exchange.

use fractal_flame::codec::{CodecError, decode_histogram, encode_histogram};
use fractal_flame::fx::FX_ONE;
use fractal_flame::histogram::{Histogram, HistogramEntry};
use fractal_flame::merge::{absorb_entries, merge_payloads};
use fractal_flame::normalize::PixelCoord;
use fractal_flame::color::Rgb;

fn entry(x: i32, y: i32, red: i64, hits: u32) -> HistogramEntry {
    HistogramEntry {
        coord: PixelCoord { x, y },
        color: Rgb { red, green: 0, blue: FX_ONE - red },
        hits,
    }
}

#[test]
fn empty_histogram_round_trips() {
    let bytes = encode_histogram(&Histogram::new());
    assert_eq!(bytes, vec![0u8; 8]);
    let decoded = decode_histogram(&bytes).unwrap();
    assert!(decoded.is_empty());
}

#[test]
fn single_record_has_exact_bytes() {
    let h = Histogram::from_entries(vec![entry(1, -1, FX_ONE, 7)]);
    let bytes = encode_histogram(&h);
    let mut expected = vec![1u8, 0, 0, 0, 0, 0, 0, 0];
    expected.extend([1u8, 0, 0, 0]); // x = 1
    expected.extend([0xffu8, 0xff, 0xff, 0xff]); // y = -1
    expected.extend([0u8, 0, 0, 0, 1, 0, 0, 0]); // red = 2^32
    expected.extend([0u8; 8]); // green = 0
    expected.extend([0u8; 8]); // blue = 0
    expected.extend([7u8, 0, 0, 0]); // hits = 7
    assert_eq!(bytes, expected);
}

#[test]
fn histograms_of_any_size_round_trip() {
    for n in [0usize, 1, 2, 13, 100] {
        let entries: Vec<HistogramEntry> = (0..n)
            .map(|i| entry(i as i32, -(i as i32) * 3, (i as i64) * 1000 % (FX_ONE + 1), i as u32))
            .collect();
        let h = Histogram::from_entries(entries.clone());
        let decoded = decode_histogram(&encode_histogram(&h)).unwrap();
        assert_eq!(decoded, entries);
    }
}

#[test]
fn extreme_values_round_trip() {
    let entries = vec![
        entry(i32::MIN, i32::MAX, i64::MIN, u32::MAX),
        entry(i32::MAX, i32::MIN, i64::MAX, 0),
    ];
    let h = Histogram::from_entries(entries.clone());
    let decoded = decode_histogram(&encode_histogram(&h)).unwrap();
    assert_eq!(decoded, entries);
}

#[test]
fn truncated_payload_is_rejected() {
    let h = Histogram::from_entries(vec![entry(3, 4, 0, 1)]);
    let mut bytes = encode_histogram(&h);
    bytes.pop();
    assert_eq!(decode_histogram(&bytes), Err(CodecError::Truncated));
    assert_eq!(decode_histogram(&vec![1u8, 2, 3]), Err(CodecError::Truncated));
}

#[test]
fn trailing_bytes_are_rejected() {
    let h = Histogram::from_entries(vec![entry(3, 4, 0, 1)]);
    let mut bytes = encode_histogram(&h);
    bytes.push(0);
    assert_eq!(decode_histogram(&bytes), Err(CodecError::TrailingBytes));
}

#[test]
fn absorb_keeps_the_first_writer() {
    let mut h = Histogram::new();
    absorb_entries(&mut h, &vec![entry(0, 0, FX_ONE, 5)]);
    absorb_entries(&mut h, &vec![entry(0, 0, 0, 9), entry(1, 1, 0, 2)]);
    assert_eq!(h.len(), 2);
    let entries = h.entries();
    assert_eq!(entries[0], entry(0, 0, FX_ONE, 5));
    assert_eq!(entries[1], entry(1, 1, 0, 2));
}

#[test]
fn merge_resolves_shared_cells_first_write_wins() {
    // Two workers share the cell (5, 5); the first worker's color and hit
    // count survive and the second worker's are not summed in.
    let worker_a = Histogram::from_entries(vec![entry(5, 5, FX_ONE, 11)]);
    let worker_b = Histogram::from_entries(vec![entry(5, 5, 0, 4), entry(6, 5, 0, 2)]);
    let bytes_a = encode_histogram(&worker_a);
    let bytes_b = encode_histogram(&worker_b);
    let sizes = vec![bytes_a.len(), bytes_b.len()];
    let mut concat = bytes_a.clone();
    concat.extend(bytes_b.iter().cloned());
    let merged = merge_payloads(&concat, &sizes).unwrap();
    assert_eq!(merged.len(), 2);
    assert_eq!(merged.entries()[0], entry(5, 5, FX_ONE, 11));
    assert_eq!(merged.entries()[1], entry(6, 5, 0, 2));
}

#[test]
fn merge_is_deterministic_over_repeated_runs() {
    let worker_a = Histogram::from_entries(vec![entry(1, 2, FX_ONE, 3), entry(2, 2, 0, 1)]);
    let worker_b = Histogram::from_entries(vec![entry(1, 2, 0, 8)]);
    let bytes_a = encode_histogram(&worker_a);
    let bytes_b = encode_histogram(&worker_b);
    let sizes = vec![bytes_a.len(), bytes_b.len()];
    let mut concat = bytes_a.clone();
    concat.extend(bytes_b.iter().cloned());
    let first = merge_payloads(&concat, &sizes).unwrap();
    let second = merge_payloads(&concat, &sizes).unwrap();
    assert_eq!(first.entries(), second.entries());
    assert_eq!(first.entries()[0], entry(1, 2, FX_ONE, 3));
}

#[test]
fn merge_handles_unequal_payload_sizes() {
    let worker_a = Histogram::new();
    let worker_b = Histogram::from_entries(vec![entry(0, 1, 0, 1), entry(2, 3, 0, 2)]);
    let bytes_a = encode_histogram(&worker_a);
    let bytes_b = encode_histogram(&worker_b);
    assert_ne!(bytes_a.len(), bytes_b.len());
    let sizes = vec![bytes_a.len(), bytes_b.len()];
    let mut concat = bytes_a.clone();
    concat.extend(bytes_b.iter().cloned());
    let merged = merge_payloads(&concat, &sizes).unwrap();
    assert_eq!(merged.len(), 2);
}

#[test]
fn merge_surfaces_a_corrupt_payload() {
    let worker_a = Histogram::from_entries(vec![entry(0, 0, 0, 1)]);
    let bytes_a = encode_histogram(&worker_a);
    let bad = vec![9u8, 0, 0, 0, 0, 0, 0, 0]; // claims nine records, holds none
    let sizes = vec![bytes_a.len(), bad.len()];
    let mut concat = bytes_a.clone();
    concat.extend(bad.iter().cloned());
    assert_eq!(merge_payloads(&concat, &sizes).err(), Some(CodecError::Truncated));
}
