use helper_binaries::release::{chunk_end, pause_micros};

#[test]
fn chunks_have_the_fixed_size_until_the_payload_ends() {
    assert_eq!(chunk_end(0, 10, 4), 4);
    assert_eq!(chunk_end(4, 10, 4), 8);
    assert_eq!(chunk_end(8, 10, 4), 10);
    assert_eq!(chunk_end(0, 8, 4), 4);
    assert_eq!(chunk_end(4, 8, 4), 8);
}

#[test]
fn chunks_cover_the_payload_without_gaps() {
    let mut offset = 0;
    let mut chunks = 0;
    while offset < 1000 {
        let end = chunk_end(offset, 1000, 64);
        assert!(end > offset && end - offset <= 64);
        offset = end;
        chunks += 1;
    }
    assert_eq!(offset, 1000);
    assert_eq!(chunks, 16);
}

#[test]
fn a_chunk_past_the_end_is_empty() {
    assert_eq!(chunk_end(10, 10, 4), 10);
    assert_eq!(chunk_end(12, 10, 4), 10);
    assert_eq!(chunk_end(0, 0, 4), 0);
}

#[test]
fn a_chunk_size_of_zero_takes_the_whole_payload() {
    assert_eq!(chunk_end(0, 10, 0), 10);
    assert_eq!(chunk_end(3, 10, 0), 10);
}

#[test]
fn a_large_chunk_size_does_not_overflow() {
    assert_eq!(chunk_end(5, usize::MAX, usize::MAX), usize::MAX);
    assert_eq!(chunk_end(usize::MAX - 1, usize::MAX, 7), usize::MAX);
}

#[test]
fn the_pause_keeps_the_rate_under_the_ceiling() {
    assert_eq!(pause_micros(1_000_000, 1_000_000), 1_000_000);
    assert_eq!(pause_micros(65_536, 8 * 1024 * 1024), 7_813);
    assert_eq!(pause_micros(1, 3), 333_334);
    assert_eq!(pause_micros(0, 5), 0);
}

#[test]
fn the_pause_stops_at_the_largest_value() {
    assert_eq!(pause_micros(u64::MAX, 1), u64::MAX);
    assert_eq!(pause_micros(5, 0), u64::MAX);
    assert_eq!(pause_micros(u64::MAX, 1_000_000), u64::MAX);
    assert_eq!(pause_micros(u64::MAX, 1_000_001), 18_446_725_626_983_924_632);
}
