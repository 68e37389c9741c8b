//! A digital-collectible registry: kitties with 16-byte genetic codes,
//! created with host-supplied seed material, transferable between owners,
//! and breedable by combining two parents' codes under a random selector.
//!
//! The registry owns all state; the host supplies authenticated caller
//! identities, the randomness seed and a per-call nonce, and reads back
//! emitted events.

pub mod dna;
pub mod registry;

pub use dna::{
    blake2_128_of, combine_dna, lemma_combine_dna_bitwise, lemma_combine_dna_extremes,
    random_value, spec_combine_dna, spec_combined_dna, spec_random_payload, spec_u64_le_bytes,
};
pub use registry::{
    bred, created, transferred, Error, Event, Kitty, KittyModule, lemma_breed_symmetry,
    lemma_create_ids_sequential, lemma_create_ownership, lemma_self_transfer_idempotent,
    lemma_transfer_moves_ownership,
};
