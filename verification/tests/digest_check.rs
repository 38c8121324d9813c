use helper_binaries::digest::{count_chunk, verify, DigestStream};

const EMPTY_SHA256: &str = "e3b0c44298fc1c149afbf4c8996fb92427ae41e4649b934ca495991b7852b855";
const ABC_SHA256: &str = "ba7816bf8f01cfea414140de5dae2223b00361a396177a9cb410ff61f20015ad";

#[test]
fn known_digests_are_confirmed() {
    assert!(verify(b"abc", ABC_SHA256));
    assert!(verify(b"", EMPTY_SHA256));
}

#[test]
fn another_payload_is_refused() {
    assert!(!verify(b"abd", ABC_SHA256));
    assert!(!verify(b"", ABC_SHA256));
    assert!(!verify(ABC_SHA256.as_bytes(), ABC_SHA256));
}

#[test]
fn the_comparison_is_exact() {
    assert!(!verify(b"abc", &ABC_SHA256.to_uppercase()));
    assert!(!verify(b"abc", &ABC_SHA256[..63]));
    assert!(!verify(b"abc", ""));
}

#[test]
fn the_digest_is_lowercase_hex_of_64_characters() {
    let mut stream = DigestStream::new();
    stream.update(b"abc");
    let digest = stream.finish();
    assert_eq!(digest, ABC_SHA256);
    assert_eq!(digest.len(), 64);
}

#[test]
fn chunks_give_the_digest_of_the_whole() {
    let mut stream = DigestStream::new();
    stream.update(b"a");
    stream.update(b"");
    stream.update(b"bc");
    assert_eq!(stream.received(), 3);
    assert!(stream.matches(ABC_SHA256));
}

#[test]
fn a_finished_stream_starts_over() {
    let mut stream = DigestStream::new();
    stream.update(b"junk");
    assert!(!stream.matches(ABC_SHA256));
    assert_eq!(stream.received(), 0);
    assert_eq!(stream.finish(), EMPTY_SHA256);
    stream.update(b"abc");
    assert!(stream.matches(ABC_SHA256));
}

#[test]
fn the_byte_count_stops_at_the_largest_value() {
    assert_eq!(count_chunk(0, 0), 0);
    assert_eq!(count_chunk(40, 2), 42);
    assert_eq!(count_chunk(u64::MAX - 2, 2), u64::MAX);
    assert_eq!(count_chunk(u64::MAX - 1, 2), u64::MAX);
    assert_eq!(count_chunk(u64::MAX, 1), u64::MAX);
}
