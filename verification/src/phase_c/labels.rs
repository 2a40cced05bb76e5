//! Map short garbling labels onto 32-byte Taproot hashlock preimages.

use crate::hashing::{append_bytes, sha256, sha256_of, TAG_PHASE_C_GARBLE_SEED, TAG_PHASE_C_L_STAR};
use vstd::bytes::{spec_u64_from_le_bytes, u64_from_le_bytes};
use vstd::prelude::*;

verus! {

/// The 32-byte `L*` expanded from a label.
pub open spec fn expanded_label(label: Seq<u8>) -> [u8; 32] {
    sha256_of(TAG_PHASE_C_L_STAR@ + label)
}

/// The garble seed derived from label material: the first 8 digest bytes, little-endian.
pub open spec fn garble_seed_of(material: [u8; 32]) -> u64 {
    spec_u64_from_le_bytes(sha256_of(TAG_PHASE_C_GARBLE_SEED@ + material@)@.take(8))
}

/// Expand a garbling label (or any short secret) to a 32-byte `L*`.
pub fn expand_label_bytes(label: &[u8]) -> (l: [u8; 32])
    ensures
        l == expanded_label(label@),
{
    let mut buf: Vec<u8> = Vec::new();
    append_bytes(&mut buf, &TAG_PHASE_C_L_STAR);
    append_bytes(&mut buf, label);
    sha256(buf.as_slice())
}

/// Deterministic garble seed from opening label material.
pub fn seed_from_label_material(material: &[u8; 32]) -> (seed: u64)
    ensures
        seed == garble_seed_of(*material),
{
    let mut buf: Vec<u8> = Vec::new();
    append_bytes(&mut buf, &TAG_PHASE_C_GARBLE_SEED);
    append_bytes(&mut buf, material);
    let dig = sha256(buf.as_slice());
    let first = vstd::slice::slice_subrange(&dig, 0, 8);
    proof {
        assert(first@ =~= dig@.take(8));
    }
    u64_from_le_bytes(first)
}

} // verus!
