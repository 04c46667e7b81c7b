//! The frame integrity checksum: the first four bytes of a double SHA-256.
use vstd::prelude::*;

verus! {

/// The SHA-256 digest of `data`.
pub uninterp spec fn sha256_of(data: Seq<u8>) -> Seq<u8>;

/// Relies on `sha2::Sha256::digest` (through `digest::Digest`): it returns the
/// 32-byte SHA-256 digest of its input, which depends on the input alone.
#[verifier::external_body]
fn sha256(data: &[u8]) -> (r: Vec<u8>)
    ensures
        r@ == sha256_of(data@),
        r@.len() == 32,
{
    <sha2::Sha256 as sha2::Digest>::digest(data).to_vec()
}

/// The checksum carried in a frame header for `payload`.
pub open spec fn checksum_of(payload: Seq<u8>) -> Seq<u8> {
    sha256_of(sha256_of(payload)).subrange(0, 4)
}

/// First four bytes of SHA-256(SHA-256(payload)).
pub fn calculate_checksum(payload: &[u8]) -> (r: [u8; 4])
    ensures
        r@ == checksum_of(payload@),
{
    let first = sha256(payload);
    let second = sha256(first.as_slice());
    let r = [second[0], second[1], second[2], second[3]];
    assert(r@ =~= checksum_of(payload@));
    r
}

/// The checksum depends on the payload alone: equal payloads, the empty one
/// included, always carry equal checksums.
pub proof fn lemma_checksum_deterministic(a: Seq<u8>, b: Seq<u8>)
    requires
        a == b,
    ensures
        checksum_of(a) == checksum_of(b),
{
}

} // verus!
