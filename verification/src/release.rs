//! Releasing an embedded payload to disk: in chunks of a fixed size, and no
//! faster than a ceiling of bytes per second, so that the disk is not
//! saturated.

use vstd::prelude::*;

verus! {

/// Microseconds in a second.
pub const MICROS_PER_SECOND: u64 = 1_000_000;

/// Where the chunk that starts at `offset` ends, in a payload of `total`
/// bytes written in chunks of `chunk_size`: the chunk is cut off at the end
/// of the payload. A chunk size of 0 stands for no chunking.
pub open spec fn chunk_end_of(offset: nat, total: nat, chunk_size: nat) -> nat {
    if offset >= total || chunk_size == 0 || chunk_size >= total - offset {
        total
    } else {
        offset + chunk_size
    }
}

/// Where the chunk that starts at `offset` ends; see [`chunk_end_of`].
pub fn chunk_end(offset: usize, total: usize, chunk_size: usize) -> (end: usize)
    ensures
        end == chunk_end_of(offset as nat, total as nat, chunk_size as nat),
        offset < total ==> offset < end <= total,
{
    if offset >= total || chunk_size == 0 || chunk_size >= total - offset {
        total
    } else {
        offset + chunk_size
    }
}

/// The least number of microseconds that writing `bytes` bytes may take
/// under a ceiling of `ceiling` bytes per second, rounded up.
pub open spec fn pause_of(bytes: nat, ceiling: nat) -> nat
    recommends
        ceiling > 0,
{
    ((bytes * 1_000_000 + ceiling - 1) / ceiling as int) as nat
}

/// The number of microseconds that writing a chunk of `bytes` bytes has to
/// take at least, so that the payload is written no faster than
/// `max_bytes_per_second`. The result is held at the largest value that
/// fits, which is also the answer for a ceiling of 0.
pub fn pause_micros(bytes: u64, max_bytes_per_second: u64) -> (pause: u64)
    ensures
        max_bytes_per_second > 0 && pause_of(bytes as nat, max_bytes_per_second as nat) <= u64::MAX
            ==> pause == pause_of(bytes as nat, max_bytes_per_second as nat),
        max_bytes_per_second == 0 || pause_of(bytes as nat, max_bytes_per_second as nat) > u64::MAX
            ==> pause == u64::MAX,
{
    if max_bytes_per_second == 0 {
        return u64::MAX;
    }
    assert(bytes * MICROS_PER_SECOND <= u64::MAX * 1_000_000) by (nonlinear_arith)
        requires
            bytes <= u64::MAX,
            MICROS_PER_SECOND == 1_000_000,
    ;
    let scaled: u128 = bytes as u128 * MICROS_PER_SECOND as u128;
    let rounded: u128 = (scaled + (max_bytes_per_second as u128 - 1)) / max_bytes_per_second as u128;
    if rounded > u64::MAX as u128 {
        u64::MAX
    } else {
        rounded as u64
    }
}

} // verus!
