use download_engine::engine::DownloadEngine;
use download_engine::plan::{plan, ChunkRange};

fn ranges(pairs: &[(u64, u64)]) -> Vec<ChunkRange> {
    pairs.iter().map(|&(start, end)| ChunkRange { start, end }).collect()
}

#[test]
fn plan_fresh_download_of_one_million_bytes() {
    let r = plan(1_000_000, 0, 300_000);
    assert_eq!(
        r,
        ranges(&[(0, 299_999), (300_000, 599_999), (600_000, 899_999), (900_000, 999_999)])
    );
}

#[test]
fn plan_resumes_after_existing_bytes() {
    let r = plan(1_000_000, 300_000, 300_000);
    assert_eq!(r, ranges(&[(300_000, 599_999), (600_000, 899_999), (900_000, 999_999)]));
}

#[test]
fn plan_is_empty_when_file_is_complete() {
    assert!(plan(1_000, 1_000, 300).is_empty());
    assert!(plan(1_000, 5_000, 300).is_empty());
    assert!(plan(0, 0, 1).is_empty());
}

#[test]
fn plan_twice_gives_the_same_ranges() {
    assert_eq!(plan(987_654, 12_345, 4_096), plan(987_654, 12_345, 4_096));
}

#[test]
fn plan_is_contiguous_and_ends_at_last_byte() {
    let total: u64 = 10_007;
    let existing: u64 = 13;
    let r = plan(total, existing, 1_000);
    assert_eq!(r.len(), 10);
    assert_eq!(r[0].start, existing);
    for w in r.windows(2) {
        assert!(w[0].start <= w[0].end);
        assert_eq!(w[1].start, w[0].end + 1);
    }
    assert_eq!(r.last().unwrap().end, total - 1);
}

#[test]
fn plan_small_values() {
    assert_eq!(plan(10, 3, 4), ranges(&[(3, 6), (7, 9)]));
    assert_eq!(plan(3, 0, 1), ranges(&[(0, 0), (1, 1), (2, 2)]));
    assert_eq!(plan(5, 0, 100), ranges(&[(0, 4)]));
}

#[test]
fn plan_at_the_largest_sizes() {
    assert_eq!(plan(u64::MAX, 0, u64::MAX), ranges(&[(0, u64::MAX - 1)]));
    assert_eq!(
        plan(u64::MAX, 1, 1 << 63),
        ranges(&[(1, 1 << 63), ((1 << 63) + 1, u64::MAX - 1)])
    );
}

#[test]
fn engine_plan_uses_its_chunk_size() {
    let engine = DownloadEngine::new(300_000);
    assert_eq!(engine.plan(1_000_000, 0), plan(1_000_000, 0, 300_000));
}

#[test]
fn header_value_names_the_range() {
    assert_eq!(ChunkRange { start: 0, end: 299_999 }.header_value(), "bytes=0-299999");
    assert_eq!(ChunkRange { start: 900_000, end: 999_999 }.header_value(), "bytes=900000-999999");
    assert_eq!(
        ChunkRange { start: 7, end: u64::MAX }.header_value(),
        "bytes=7-18446744073709551615"
    );
}
