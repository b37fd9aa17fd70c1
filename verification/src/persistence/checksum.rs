//! Envelope checksum: the lower 32 bits (little-endian) of the blake3 hash of
//! the header with its checksum field zeroed, followed by the payload.

use crate::bytes::{le_read, le_value};
use vstd::prelude::*;

verus! {

#[verifier::external_type_specification]
#[verifier::external_body]
pub struct ExHasher(blake3::Hasher);

/// The 32-byte blake3 hash of a byte sequence.
pub uninterp spec fn blake3_digest(input: Seq<u8>) -> Seq<u8>;

/// The bytes a blake3 hasher has been given so far.
pub uninterp spec fn hasher_input(h: blake3::Hasher) -> Seq<u8>;

/// `blake3::Hasher::new`: claimed to start with no input.
#[verifier::external_body]
fn hasher_new() -> (r: blake3::Hasher)
    ensures
        hasher_input(r) == Seq::<u8>::empty(),
{
    blake3::Hasher::new()
}

/// `blake3::Hasher::update`: claimed to append `input` to the bytes the
/// hasher has been given.
#[verifier::external_body]
fn hasher_update(h: &mut blake3::Hasher, input: &[u8])
    ensures
        hasher_input(*final(h)) == hasher_input(*old(h)) + input@,
{
    h.update(input);
}

/// `blake3::Hasher::finalize`, as the hash's 32 bytes: claimed to be the
/// blake3 hash of the bytes the hasher has been given (the crate documents
/// it as equal to `blake3::hash` of that input).
#[verifier::external_body]
fn hasher_finalize(h: &blake3::Hasher) -> (r: [u8; 32])
    ensures
        r@ == blake3_digest(hasher_input(*h)),
{
    *h.finalize().as_bytes()
}

/// Model of [`compute`]: the first four bytes of the blake3 hash of the
/// header followed by the payload, read little-endian.
pub open spec fn checksum_spec(header_no_crc: Seq<u8>, payload: Seq<u8>) -> u32 {
    le_value(blake3_digest(header_no_crc + payload).take(4)) as u32
}

/// Compute the 32-bit envelope checksum over the header bytes (with the
/// checksum field zeroed) and the payload.
pub fn compute(header_no_crc: &[u8], payload: &[u8]) -> (r: u32)
    ensures
        r == checksum_spec(header_no_crc@, payload@),
{
    let mut hasher = hasher_new();
    hasher_update(&mut hasher, header_no_crc);
    hasher_update(&mut hasher, payload);
    assert(hasher_input(hasher) =~= header_no_crc@ + payload@);
    let digest = hasher_finalize(&hasher);
    let d = digest.as_slice();
    let v = le_read(d, 0, 4);
    proof {
        crate::bytes::lemma_le_value_bytes(d@.subrange(0, 4));
        crate::bytes::lemma_pow256_8();
    }
    assert(d@.subrange(0, 4) =~= blake3_digest(header_no_crc@ + payload@).take(4));
    v as u32
}

/// The checksum depends only on the concatenation of header and payload:
/// moving bytes across the boundary does not change it.
pub proof fn lemma_checksum_framing(a: Seq<u8>, b: Seq<u8>, c: Seq<u8>)
    ensures
        checksum_spec(a + b, c) == checksum_spec(a, b + c),
{
    assert((a + b) + c =~= a + (b + c));
}

} // verus!
