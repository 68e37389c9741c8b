//! Genetic codes: derivation of fresh DNA from seed material and the
//! byte-wise combination of two parents' DNA under a selector.

use vstd::prelude::*;

verus! {

/// The 16-byte digest that the host's hash function produces for the given
/// input bytes; it depends on those bytes alone.
pub uninterp spec fn blake2_128_of(data: Seq<u8>) -> Seq<u8>;

/// Relies on sp_io::hashing::blake2_128: the 16-byte Blake2b digest of the
/// input, a function of the input bytes alone.
#[verifier::external_body]
fn blake2_128(data: &Vec<u8>) -> (r: [u8; 16])
    ensures
        r@ == blake2_128_of(data@),
{
    sp_io::hashing::blake2_128(data.as_slice())
}

/// A u64 rendered as its eight bytes, least significant first.
pub open spec fn spec_u64_le_bytes(x: u64) -> Seq<u8> {
    seq![
        (x & 0xff) as u8,
        ((x >> 8) & 0xff) as u8,
        ((x >> 16) & 0xff) as u8,
        ((x >> 24) & 0xff) as u8,
        ((x >> 32) & 0xff) as u8,
        ((x >> 40) & 0xff) as u8,
        ((x >> 48) & 0xff) as u8,
        ((x >> 56) & 0xff) as u8,
    ]
}

/// The bytes hashed to derive a fresh genetic code: the global randomness
/// seed, then the caller identity, then the per-call nonce.
pub open spec fn spec_random_payload(seed: Seq<u8>, sender: u64, nonce: u64) -> Seq<u8> {
    seed + spec_u64_le_bytes(sender) + spec_u64_le_bytes(nonce)
}

fn push_u64_le(payload: &mut Vec<u8>, x: u64)
    ensures
        final(payload)@ == old(payload)@ + spec_u64_le_bytes(x),
{
    payload.push((x & 0xff) as u8);
    payload.push(((x >> 8) & 0xff) as u8);
    payload.push(((x >> 16) & 0xff) as u8);
    payload.push(((x >> 24) & 0xff) as u8);
    payload.push(((x >> 32) & 0xff) as u8);
    payload.push(((x >> 40) & 0xff) as u8);
    payload.push(((x >> 48) & 0xff) as u8);
    payload.push(((x >> 56) & 0xff) as u8);
    proof {
        assert(payload@ =~= old(payload)@ + spec_u64_le_bytes(x));
    }
}

/// Derives a genetic code from the global randomness seed, the caller
/// identity and a per-call nonce. The collaborator that supplies the nonce
/// must make it unique per call; distinct seed material then gives an
/// independent digest.
pub fn random_value(seed: &[u8; 32], sender: u64, nonce: u64) -> (r: [u8; 16])
    ensures
        r@ == blake2_128_of(spec_random_payload(seed@, sender, nonce)),
{
    let mut payload: Vec<u8> = Vec::new();
    proof {
        assert(payload@ =~= seed@.take(0));
    }
    let mut i: usize = 0;
    while i < 32
        invariant
            i <= 32,
            payload@ == seed@.take(i as int),
        decreases 32 - i,
    {
        payload.push(seed[i]);
        proof {
            assert(payload@ =~= seed@.take(i as int + 1));
        }
        i += 1;
    }
    proof {
        assert(payload@ =~= seed@);
    }
    push_u64_le(&mut payload, sender);
    push_u64_le(&mut payload, nonce);
    proof {
        assert(payload@ =~= spec_random_payload(seed@, sender, nonce));
    }
    blake2_128(&payload)
}

/// Combines one byte of each parent's genetic code under a selector byte:
/// every bit of the result comes from `dna1` where the selector bit is set,
/// and from `dna2` where it is clear.
pub open spec fn spec_combine_dna(dna1: u8, dna2: u8, selector: u8) -> u8 {
    (selector & dna1) | (!selector & dna2)
}

pub fn combine_dna(dna1: u8, dna2: u8, selector: u8) -> (r: u8)
    ensures
        r == spec_combine_dna(dna1, dna2, selector),
{
    (selector & dna1) | (!selector & dna2)
}

/// A child's genetic code: each byte combines the parents' bytes at the
/// same position under the selector byte at that position.
pub open spec fn spec_combined_dna(dna1: Seq<u8>, dna2: Seq<u8>, selector: Seq<u8>) -> Seq<u8>
    recommends
        dna1.len() == 16,
        dna2.len() == 16,
        selector.len() == 16,
{
    Seq::new(16, |i: int| spec_combine_dna(dna1[i], dna2[i], selector[i]))
}

/// Each bit of a combined byte is the corresponding bit of the first parent
/// where the selector bit is set, and of the second parent where it is clear.
pub proof fn lemma_combine_dna_bitwise(dna1: u8, dna2: u8, selector: u8, b: u8)
    requires
        b < 8,
    ensures
        (spec_combine_dna(dna1, dna2, selector) >> b) & 1 == if (selector >> b) & 1 == 1 {
            (dna1 >> b) & 1
        } else {
            (dna2 >> b) & 1
        },
{
    assert((((selector & dna1) | (!selector & dna2)) >> b) & 1 == if (selector >> b) & 1 == 1 {
        (dna1 >> b) & 1
    } else {
        (dna2 >> b) & 1
    }) by (bit_vector)
        requires
            b < 8,
    ;
}

/// An all-ones selector byte copies the first parent's byte; an all-zeroes
/// selector byte copies the second parent's byte.
pub proof fn lemma_combine_dna_extremes(dna1: u8, dna2: u8)
    ensures
        spec_combine_dna(dna1, dna2, 0xff) == dna1,
        spec_combine_dna(dna1, dna2, 0x00) == dna2,
{
    assert((0xffu8 & dna1) | (!0xffu8 & dna2) == dna1) by (bit_vector);
    assert((0x00u8 & dna1) | (!0x00u8 & dna2) == dna2) by (bit_vector);
}

} // verus!
