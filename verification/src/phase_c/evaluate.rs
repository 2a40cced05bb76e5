//! Garbled Evaluate stand-in: Claim Mini with a Phase C domain-separated `L*`
//! bound to the reconstructed label material.

use crate::backend::{hashlock_commit, hashlock_of, EvaluationResult};
use crate::claim_mini::{claim_preimage, claim_valid, ClaimMini};
use crate::hashing::{append_bytes, sha256, sha256_of, TAG_PHASE_C_STAND_IN_L_STAR};
use vstd::bytes::{spec_u64_to_le_bytes, u64_to_le_bytes};
use vstd::prelude::*;

verus! {

/// The Phase C `L*` of a claim under given label material.
pub open spec fn phase_c_l_invalid(claim: ClaimMini, material: [u8; 32]) -> [u8; 32] {
    sha256_of(
        TAG_PHASE_C_STAND_IN_L_STAR@ + material@ + claim_preimage(claim) + spec_u64_to_le_bytes(
            claim.total_in,
        ) + spec_u64_to_le_bytes(claim.total_out),
    )
}

/// The Phase C outcome: `Valid` exactly when the claim is valid.
pub open spec fn phase_c_evaluation(claim: ClaimMini, material: [u8; 32]) -> EvaluationResult {
    if claim_valid(claim) {
        EvaluationResult::Valid
    } else {
        EvaluationResult::Invalid { l_invalid: phase_c_l_invalid(claim, material) }
    }
}

/// `L*` for a claim under given label material.
pub fn l_invalid(claim: &ClaimMini, label_material: &[u8; 32]) -> (l: [u8; 32])
    ensures
        l == phase_c_l_invalid(*claim, *label_material),
{
    let mut buf: Vec<u8> = Vec::new();
    append_bytes(&mut buf, &TAG_PHASE_C_STAND_IN_L_STAR);
    append_bytes(&mut buf, label_material);
    let p = claim.preimage();
    append_bytes(&mut buf, p.as_slice());
    let a = u64_to_le_bytes(claim.total_in);
    append_bytes(&mut buf, a.as_slice());
    let b = u64_to_le_bytes(claim.total_out);
    append_bytes(&mut buf, b.as_slice());
    sha256(buf.as_slice())
}

/// Evaluate a claim under given label material.
pub fn evaluate(claim: &ClaimMini, label_material: &[u8; 32]) -> (r: EvaluationResult)
    ensures
        r == phase_c_evaluation(*claim, *label_material),
{
    if claim.verify() {
        EvaluationResult::Valid
    } else {
        EvaluationResult::Invalid { l_invalid: l_invalid(claim, label_material) }
    }
}

/// Commit `H(L_invalid)` for the Disprove hashlock at Assert time.
pub fn commit_l_invalid(claim: &ClaimMini, label_material: &[u8; 32]) -> (h: [u8; 32])
    ensures
        h == hashlock_of(phase_c_l_invalid(*claim, *label_material)),
{
    hashlock_commit(&l_invalid(claim, label_material))
}

/// Evaluate a claim after recovering label / share material from the opening.
pub fn evaluate_claim(claim: &ClaimMini, label_material: &[u8; 32]) -> (r: EvaluationResult)
    ensures
        r == phase_c_evaluation(*claim, *label_material),
{
    evaluate(claim, label_material)
}

} // verus!
