//! Genetic codes: derivation of a fresh code from the randomness seed, and
//! the per-bit combination of two parent codes.
use vstd::prelude::*;

verus! {

/// What `sp_io::hashing::blake2_128` returns for the given bytes.
pub uninterp spec fn blake2_128_of(data: Seq<u8>) -> Seq<u8>;

/// Relies on sp_io::hashing::blake2_128: a 16-byte digest that depends on
/// the input bytes alone.
#[verifier::external_body]
fn blake2_128(data: &Vec<u8>) -> (r: [u8; 16])
    ensures
        r@ == blake2_128_of(data@),
{
    sp_io::hashing::blake2_128(data.as_slice())
}

/// Little-endian bytes of a `u64`.
pub open spec fn le_bytes_u64(x: u64) -> Seq<u8> {
    Seq::new(8, |i: int| (x >> ((8 * i) as u64)) as u8)
}

/// Little-endian bytes of a `u32`.
pub open spec fn le_bytes_u32(x: u32) -> Seq<u8> {
    Seq::new(4, |i: int| (x >> ((8 * i) as u32)) as u8)
}

/// Compact tagged form of an optional `u32`: a zero byte for `None`, a one
/// byte followed by the little-endian value for `Some`.
pub open spec fn option_u32_bytes(x: Option<u32>) -> Seq<u8> {
    match x {
        None => seq![0u8],
        Some(v) => seq![1u8] + le_bytes_u32(v),
    }
}

/// The bytes that are hashed to derive a code: the seed, then the caller,
/// then the position of the current operation in its batch.
pub open spec fn identity_payload(seed: Seq<u8>, who: u64, extrinsic_index: Option<u32>) -> Seq<u8> {
    seed + le_bytes_u64(who) + option_u32_bytes(extrinsic_index)
}

/// The code that a caller receives for a given seed and batch position.
pub open spec fn identity_of(seed: Seq<u8>, who: u64, extrinsic_index: Option<u32>) -> Seq<u8> {
    blake2_128_of(identity_payload(seed, who, extrinsic_index))
}

/// The per-bit multiplexer of two codes: where a selector bit is one the bit
/// comes from `a`, where it is zero from `b`.
pub open spec fn mixed_dna(selector: Seq<u8>, a: Seq<u8>, b: Seq<u8>) -> Seq<u8> {
    Seq::new(16, |i: int| (selector[i] & a[i]) | (!selector[i] & b[i]))
}

/// Derives a 16-byte code from the randomness seed, the caller and the
/// position of the operation within its batch.
pub fn random_value(who: u64, seed: &[u8; 32], extrinsic_index: Option<u32>) -> (r: [u8; 16])
    ensures
        r@ == identity_of(seed@, who, extrinsic_index),
{
    let mut payload: Vec<u8> = Vec::new();
    let mut i: usize = 0;
    while i < 32
        invariant
            0 <= i <= 32,
            payload@ == seed@.subrange(0, i as int),
        decreases 32 - i,
    {
        payload.push(seed[i]);
        i = i + 1;
    }
    assert(seed@.subrange(0, 32) =~= seed@);
    let ghost base = payload@;
    let mut k: u64 = 0;
    while k < 8
        invariant
            0 <= k <= 8,
            payload@ == base + le_bytes_u64(who).subrange(0, k as int),
        decreases 8 - k,
    {
        payload.push((who >> (8 * k)) as u8);
        assert(payload@ =~= base + le_bytes_u64(who).subrange(0, k + 1));
        k = k + 1;
    }
    assert(le_bytes_u64(who).subrange(0, 8) =~= le_bytes_u64(who));
    let ghost base2 = payload@;
    match extrinsic_index {
        None => {
            payload.push(0u8);
            assert(payload@ =~= base2 + option_u32_bytes(extrinsic_index));
        },
        Some(v) => {
            payload.push(1u8);
            let mut j: u32 = 0;
            while j < 4
                invariant
                    0 <= j <= 4,
                    payload@ == base2 + seq![1u8] + le_bytes_u32(v).subrange(0, j as int),
                decreases 4 - j,
            {
                payload.push((v >> (8 * j)) as u8);
                assert(payload@ =~= base2 + seq![1u8] + le_bytes_u32(v).subrange(0, j + 1));
                j = j + 1;
            }
            assert(le_bytes_u32(v).subrange(0, 4) =~= le_bytes_u32(v));
            assert(payload@ =~= base2 + option_u32_bytes(extrinsic_index));
        },
    }
    assert(payload@ =~= identity_payload(seed@, who, extrinsic_index));
    blake2_128(&payload)
}

/// Combines two parent codes bit by bit under a selector: each result bit
/// is the bit of `dna_1` where the selector bit is one, and the bit of
/// `dna_2` where it is zero.
pub fn mix_dna(selector: &[u8; 16], dna_1: &[u8; 16], dna_2: &[u8; 16]) -> (r: [u8; 16])
    ensures
        r@ == mixed_dna(selector@, dna_1@, dna_2@),
        forall|i: int|
            0 <= i < 16 ==> #[trigger] r@[i] == (selector@[i] & dna_1@[i]) | (!selector@[i]
                & dna_2@[i]),
{
    let mut new_dna: [u8; 16] = [0u8; 16];
    let mut i: usize = 0;
    while i < 16
        invariant
            0 <= i <= 16,
            new_dna@.len() == 16,
            forall|j: int|
                0 <= j < i ==> #[trigger] new_dna@[j] == (selector@[j] & dna_1@[j]) | (
                !selector@[j] & dna_2@[j]),
        decreases 16 - i,
    {
        new_dna[i] = (selector[i] & dna_1[i]) | (!selector[i] & dna_2[i]);
        i = i + 1;
    }
    assert(new_dna@ =~= mixed_dna(selector@, dna_1@, dna_2@));
    new_dna
}

} // verus!
