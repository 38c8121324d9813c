//! Integrity check of a payload: its SHA-256 digest, written as lowercase
//! hex, has to equal the digest that the manifest expects. The digest is
//! computed while the payload streams in, or over a payload already in memory.

use crate::hashing::{
    absorbed, hex_encode, sha256, sha256_absorb, sha256_finish, sha256_start, Sha256State,
};
use crate::text::same_text;
use vstd::prelude::*;

verus! {

/// The sixteen hex digits, lowercase.
pub const HEX_DIGITS: &'static str = "0123456789abcdef";

/// `bytes` in lowercase hex: two digits per byte, the high four bits first.
pub open spec fn hex_lower(bytes: Seq<u8>) -> Seq<char> {
    Seq::new(
        2 * bytes.len(),
        |i: int|
            if i % 2 == 0 {
                HEX_DIGITS@[bytes[i / 2] as int / 16]
            } else {
                HEX_DIGITS@[bytes[i / 2] as int % 16]
            },
    )
}

/// The digest of `payload` in the form in which the manifest states it.
pub open spec fn digest_hex(payload: Seq<u8>) -> Seq<char> {
    hex_lower(sha256(payload))
}

/// The sum of a byte count and the length of one more chunk, held at the
/// largest count that fits.
pub open spec fn counted(received: u64, more: nat) -> u64 {
    if received + more <= u64::MAX {
        (received + more) as u64
    } else {
        u64::MAX
    }
}

/// `received` plus the `more` bytes of a new chunk; see [`counted`].
pub fn count_chunk(received: u64, more: usize) -> (sum: u64)
    ensures
        sum == counted(received, more as nat),
{
    let room: u64 = u64::MAX - received;
    if more as u64 <= room {
        received + more as u64
    } else {
        u64::MAX
    }
}

/// The digest of a payload that arrives in chunks.
pub struct DigestStream {
    state: Sha256State,
    received: u64,
}

impl DigestStream {
    /// The payload taken in so far.
    pub closed spec fn payload(&self) -> Seq<u8> {
        absorbed(self.state)
    }

    /// The number of bytes taken in so far, as counted.
    pub closed spec fn count(&self) -> u64 {
        self.received
    }

    /// A stream that has taken in nothing.
    pub fn new() -> (stream: Self)
        ensures
            stream.payload() == Seq::<u8>::empty(),
            stream.count() == 0,
    {
        DigestStream { state: sha256_start(), received: 0 }
    }

    /// Takes in the next chunk of the payload.
    pub fn update(&mut self, chunk: &[u8])
        ensures
            final(self).payload() == old(self).payload() + chunk@,
            final(self).count() == counted(old(self).count(), chunk@.len()),
    {
        sha256_absorb(&mut self.state, chunk);
        self.received = count_chunk(self.received, chunk.len());
    }

    /// The number of bytes taken in so far.
    pub fn received(&self) -> (n: u64)
        ensures
            n == self.count(),
    {
        self.received
    }

    /// The digest of the payload, in lowercase hex. The stream starts over:
    /// afterwards it has taken in nothing.
    pub fn finish(&mut self) -> (digest: String)
        ensures
            digest@ == digest_hex(old(self).payload()),
            final(self).payload() == Seq::<u8>::empty(),
            final(self).count() == 0,
    {
        let raw = sha256_finish(&mut self.state);
        self.received = 0;
        hex_encode(raw.as_slice())
    }

    /// Whether the payload has the digest `expected_hex`. The comparison is
    /// exact: an expected digest in uppercase never matches. The stream
    /// starts over.
    pub fn matches(&mut self, expected_hex: &str) -> (ok: bool)
        ensures
            ok == (digest_hex(old(self).payload()) == expected_hex@),
            final(self).payload() == Seq::<u8>::empty(),
            final(self).count() == 0,
    {
        let digest = self.finish();
        same_text(digest.as_str(), expected_hex)
    }
}

/// Whether the payload `bytes`, already in memory, has the digest
/// `expected_hex`.
pub fn verify(bytes: &[u8], expected_hex: &str) -> (ok: bool)
    ensures
        ok == (digest_hex(bytes@) == expected_hex@),
{
    let mut stream = DigestStream::new();
    stream.update(bytes);
    assert(Seq::<u8>::empty() + bytes@ =~= bytes@);
    stream.matches(expected_hex)
}

} // verus!
