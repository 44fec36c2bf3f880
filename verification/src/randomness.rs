use vstd::prelude::*;
use parity_scale_codec::Encode;

verus! {

/// The little-endian bytes of a 64-bit value, least significant first.
pub open spec fn u64_le_bytes(x: u64) -> Seq<u8> {
    seq![
        (x & 0xff) as u8,
        ((x >> 8) & 0xff) as u8,
        ((x >> 16) & 0xff) as u8,
        ((x >> 24) & 0xff) as u8,
        ((x >> 32) & 0xff) as u8,
        ((x >> 40) & 0xff) as u8,
        ((x >> 48) & 0xff) as u8,
        ((x >> 56) & 0xff) as u8,
    ]
}

/// The little-endian bytes of a 32-bit value, least significant first.
pub open spec fn u32_le_bytes(x: u32) -> Seq<u8> {
    seq![(x & 0xff) as u8, ((x >> 8) & 0xff) as u8, ((x >> 16) & 0xff) as u8, ((x >> 24)
        & 0xff) as u8]
}

/// The serialized randomness payload: the seed bytes, then the caller's
/// account id in little-endian, then the request nonce as a tag byte (0 for
/// absent, 1 for present) followed by its little-endian bytes.
pub open spec fn payload_bytes(seed: Seq<u8>, who: u64, nonce: Option<u32>) -> Seq<u8> {
    seed + u64_le_bytes(who) + match nonce {
        None => seq![0u8],
        Some(n) => seq![1u8] + u32_le_bytes(n),
    }
}

/// The 16-byte digest of a byte string under the fixed 128-bit hash. A
/// function of the input bytes alone: every replica derives the same digest
/// from the same bytes.
pub uninterp spec fn blake2_128_of(data: Seq<u8>) -> Seq<u8>;

/// Relies on parity_scale_codec's `Encode` for `([u8; 32], u64, Option<u32>)`:
/// a tuple is the concatenation of its fields' encodings, a byte array is its
/// raw bytes, an integer is its little-endian bytes, and an `Option` is a
/// 0/1 tag byte followed by the payload if present.
#[verifier::external_body]
fn scale_encode_payload(seed: &[u8; 32], who: u64, nonce: Option<u32>) -> (r: Vec<u8>)
    ensures
        r@ == payload_bytes(seed@, who, nonce),
{
    (*seed, who, nonce).encode()
}

/// Relies on sp_io's `hashing::blake2_128`: a 16-byte Blake2b digest that
/// depends on the input bytes alone.
#[verifier::external_body]
fn hash_blake2_128(data: &[u8]) -> (r: [u8; 16])
    ensures
        r@ == blake2_128_of(data@),
{
    sp_io::hashing::blake2_128(data)
}

/// The 16 bytes derived for one request from the host-supplied seed, the
/// caller and the per-request nonce.
pub open spec fn spec_random_value(seed: Seq<u8>, who: u64, nonce: Option<u32>) -> Seq<u8> {
    blake2_128_of(payload_bytes(seed, who, nonce))
}

/// Derives the per-request 16-byte value (a fresh genome at creation, the
/// selector mask at breeding) from the seed, the caller and the nonce.
/// Deterministic: replicas hand the core identical inputs and derive
/// identical bytes.
pub fn random_value(seed: &[u8; 32], who: u64, nonce: Option<u32>) -> (r: [u8; 16])
    ensures
        r@ == spec_random_value(seed@, who, nonce),
{
    let payload = scale_encode_payload(seed, who, nonce);
    hash_blake2_128(payload.as_slice())
}

} // verus!
