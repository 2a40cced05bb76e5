//! Phase A extractable opening: direct seed.
//!
//! The Engine reveals a 32-byte seed in the Assert witness. From this seed
//! anyone can deterministically derive the label material.

use crate::hashing::{append_bytes, sha256, sha256_of, TAG_PHASE_A_LABELS, TAG_PHASE_A_SEED};
use vstd::bytes::{lemma_auto_spec_u32_to_from_le_bytes, spec_u32_to_le_bytes, u32_to_le_bytes};
use vstd::prelude::*;

verus! {

/// The data that appears in the Assert witness for Phase A.
#[derive(Clone, Copy, Debug, PartialEq, Eq)]
pub struct DirectSeedOpening {
    /// Protocol version so that adaptor openings can be told apart.
    pub version: u8,
    /// Which evaluation instance is being opened.
    pub instance_id: u32,
    /// 32-byte seed.
    pub seed: [u8; 32],
    /// Hash of the public inputs / claim (for integrity).
    pub public_inputs_hash: [u8; 32],
}

/// What the seed of evaluation instance `instance_id` hashes:
/// `tag || instance_id (LE) || claim bytes`.
pub open spec fn direct_seed_preimage(instance_id: u32, claim_bytes: Seq<u8>) -> Seq<u8> {
    TAG_PHASE_A_SEED@ + spec_u32_to_le_bytes(instance_id) + claim_bytes
}

/// The seed of evaluation instance `instance_id` for the given claim bytes:
/// `SHA-256(tag || instance_id (LE) || claim bytes)`, so each instance of one
/// claim has its own seed.
pub open spec fn direct_seed_of(instance_id: u32, claim_bytes: Seq<u8>) -> [u8; 32] {
    sha256_of(direct_seed_preimage(instance_id, claim_bytes))
}

/// Two instances of one claim hash different inputs for their seeds: the
/// instance id is bound into the seed.
pub proof fn lemma_seed_binds_instance(i: u32, j: u32, claim_bytes: Seq<u8>)
    requires
        i != j,
    ensures
        direct_seed_preimage(i, claim_bytes) != direct_seed_preimage(j, claim_bytes),
{
    lemma_auto_spec_u32_to_from_le_bytes();
    let n: int = TAG_PHASE_A_SEED@.len() as int;
    let a = direct_seed_preimage(i, claim_bytes);
    let b = direct_seed_preimage(j, claim_bytes);
    assert(a.subrange(n, n + 4) =~= spec_u32_to_le_bytes(i));
    assert(b.subrange(n, n + 4) =~= spec_u32_to_le_bytes(j));
}

/// The label material derived from a seed.
pub open spec fn direct_label_material_of(seed: [u8; 32]) -> [u8; 32] {
    sha256_of(TAG_PHASE_A_LABELS@ + seed@)
}

impl DirectSeedOpening {
    /// Protocol version of Phase A direct-seed openings.
    pub const VERSION_PHASE_A: u8 = 1;

    /// Create the opening of instance `instance_id` for given claim bytes: the
    /// seed hashes the instance id and the claim serialization, the
    /// public-inputs hash is the hash of the claim serialization.
    pub fn from_claim_bytes(instance_id: u32, claim_bytes: &[u8]) -> (o: Self)
        ensures
            o.version == Self::VERSION_PHASE_A,
            o.instance_id == instance_id,
            o.seed == direct_seed_of(instance_id, claim_bytes@),
            o.public_inputs_hash == sha256_of(claim_bytes@),
    {
        let mut buf: Vec<u8> = Vec::new();
        append_bytes(&mut buf, &TAG_PHASE_A_SEED);
        let id = u32_to_le_bytes(instance_id);
        append_bytes(&mut buf, id.as_slice());
        append_bytes(&mut buf, claim_bytes);
        let seed = sha256(buf.as_slice());
        let public_inputs_hash = sha256(claim_bytes);
        DirectSeedOpening { version: Self::VERSION_PHASE_A, instance_id, seed, public_inputs_hash }
    }

    /// Derive deterministic label material from the seed.
    pub fn derive_label_material(&self) -> (m: [u8; 32])
        ensures
            m == direct_label_material_of(self.seed),
    {
        let mut buf: Vec<u8> = Vec::new();
        append_bytes(&mut buf, &TAG_PHASE_A_LABELS);
        append_bytes(&mut buf, &self.seed);
        sha256(buf.as_slice())
    }
}

} // verus!
