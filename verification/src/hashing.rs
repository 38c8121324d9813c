//! SHA-256 comes from the `sha2` crate and hex encoding from the `hex`
//! crate. This file says what the installer takes for granted of them:
//! nothing here is proved.

use crate::digest::hex_lower;
use sha2::Digest;
use vstd::prelude::*;

verus! {

/// A running SHA-256 computation of the `sha2` crate. Its type is built from
/// traits of that crate, so it is kept behind this handle.
#[verifier::external_body]
pub struct Sha256State {
    inner: sha2::Sha256,
}

/// The bytes that a running computation has taken in so far, in order.
pub uninterp spec fn absorbed(state: Sha256State) -> Seq<u8>;

/// The SHA-256 digest of `data`.
pub uninterp spec fn sha256(data: Seq<u8>) -> Seq<u8>;

/// `Sha256::new` starts a computation that has taken in nothing.
#[verifier::external_body]
pub(crate) fn sha256_start() -> (state: Sha256State)
    ensures
        absorbed(state) == Seq::<u8>::empty(),
{
    Sha256State { inner: sha2::Sha256::new() }
}

/// `Digest::update` takes in `chunk` after what was taken in before.
#[verifier::external_body]
pub(crate) fn sha256_absorb(state: &mut Sha256State, chunk: &[u8])
    ensures
        absorbed(*final(state)) == absorbed(*old(state)) + chunk@,
{
    state.inner.update(chunk);
}

/// `Digest::finalize_reset` gives the digest of everything that was taken
/// in, and leaves a computation that has taken in nothing.
#[verifier::external_body]
pub(crate) fn sha256_finish(state: &mut Sha256State) -> (digest: Vec<u8>)
    ensures
        digest@ == sha256(absorbed(*old(state))),
        absorbed(*final(state)) == Seq::<u8>::empty(),
{
    state.inner.finalize_reset().to_vec()
}

/// `hex::encode` writes each byte as two lowercase hex digits, the high four
/// bits first.
#[verifier::external_body]
pub(crate) fn hex_encode(bytes: &[u8]) -> (text: String)
    ensures
        text@ == hex_lower(bytes@),
{
    hex::encode(bytes)
}

} // verus!
