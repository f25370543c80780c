//! BLAKE3.
use vstd::prelude::*;

verus! {

/// The 32-byte BLAKE3 digest of `input`.
pub uninterp spec fn blake3_digest(input: Seq<u8>) -> Seq<u8>;

/// The first 64 bytes of the BLAKE3 output stream of `input`.
pub uninterp spec fn blake3_stream_64(input: Seq<u8>) -> Seq<u8>;

/// `blake3::hash`: the 32-byte digest of the whole of `input`, a function of those
/// bytes alone. Hashing in pieces with `blake3::Hasher` gives the same digest as
/// hashing their concatenation.
#[verifier::external_body]
pub(crate) fn blake3_hash(input: &[u8]) -> (digest: [u8; 32])
    ensures
        digest@ == blake3_digest(input@),
{
    *blake3::hash(input).as_bytes()
}

/// `blake3::Hasher::finalize_xof` on `input`, read for 64 bytes: the start of the
/// output stream, a function of those bytes alone.
#[verifier::external_body]
pub(crate) fn blake3_hash_64(input: &[u8]) -> (stream: [u8; 64])
    ensures
        stream@ == blake3_stream_64(input@),
{
    let mut out = [0u8; 64];
    blake3::Hasher::new().update(input).finalize_xof().fill(&mut out);
    out
}

} // verus!
