//! Garbled SNARK verifier backend (BitVM3 path), stand-in form.
//!
//! Without the garbled-snark-verifier crate linked, `L_invalid` is a
//! domain-separated hash of the whole claim, distinct from the Claim Mini label.

use super::{hashlock_commit, hashlock_of, result_opens, CircuitBackend, EvaluationResult};
use crate::claim_mini::{claim_preimage, claim_valid, ClaimMini};
use crate::hashing::{append_bytes, sha256, sha256_of, TAG_GSV_L_INVALID};
use crate::opening::LabelOpening;
use crate::phase_a::opening::DirectSeedOpening;
use vstd::bytes::{spec_u64_to_le_bytes, u64_to_le_bytes};
use vstd::prelude::*;

verus! {

/// The bytes hashed into the stand-in `L_invalid` of a claim.
pub open spec fn gsv_l_invalid_preimage(claim: ClaimMini) -> Seq<u8> {
    TAG_GSV_L_INVALID@ + claim_preimage(claim) + spec_u64_to_le_bytes(claim.total_in)
        + spec_u64_to_le_bytes(claim.total_out) + claim.h_new@
}

/// The stand-in `L_invalid` of a claim.
pub open spec fn gsv_l_invalid(claim: ClaimMini) -> [u8; 32] {
    sha256_of(gsv_l_invalid_preimage(claim))
}

/// `L_invalid` for the Taproot hashlock (32 bytes).
pub fn l_invalid(claim: &ClaimMini) -> (l: [u8; 32])
    ensures
        l == gsv_l_invalid(*claim),
{
    let mut buf: Vec<u8> = Vec::new();
    append_bytes(&mut buf, &TAG_GSV_L_INVALID);
    let p = claim.preimage();
    append_bytes(&mut buf, p.as_slice());
    let a = u64_to_le_bytes(claim.total_in);
    append_bytes(&mut buf, a.as_slice());
    let b = u64_to_le_bytes(claim.total_out);
    append_bytes(&mut buf, b.as_slice());
    append_bytes(&mut buf, &claim.h_new);
    sha256(buf.as_slice())
}

/// Stand-in evaluation: `Valid` exactly when the claim is valid.
pub open spec fn gsv_evaluation(claim: ClaimMini) -> EvaluationResult {
    if claim_valid(claim) {
        EvaluationResult::Valid
    } else {
        EvaluationResult::Invalid { l_invalid: gsv_l_invalid(claim) }
    }
}

/// Evaluate a claim (the opening carries no extra information in the stand-in).
pub fn evaluate(claim: &ClaimMini, opening: &DirectSeedOpening) -> (r: EvaluationResult)
    ensures
        r == gsv_evaluation(*claim),
{
    if claim.verify() {
        EvaluationResult::Valid
    } else {
        EvaluationResult::Invalid { l_invalid: l_invalid(claim) }
    }
}

/// BitVM3 backend; a stand-in unless the garbled-snark-verifier crate is linked.
#[derive(Clone, Copy, Debug, Default)]
pub struct GarbledSnarkBackend;

impl GarbledSnarkBackend {
    /// Whether the real garbled-snark-verifier crate is linked (it is not).
    pub fn is_linked() -> (linked: bool)
        ensures
            !linked,
    {
        false
    }
}

impl CircuitBackend for GarbledSnarkBackend {
    type Claim = ClaimMini;

    open spec fn committed_hashlock(&self, claim: ClaimMini) -> [u8; 32] {
        hashlock_of(gsv_l_invalid(claim))
    }

    open spec fn evaluation(&self, claim: ClaimMini) -> EvaluationResult {
        gsv_evaluation(claim)
    }

    fn name(&self) -> (n: &'static str)
        ensures
            n@ == "garbled-snark-verifier (stand-in)"@,
    {
        if Self::is_linked() {
            "garbled-snark-verifier"
        } else {
            "garbled-snark-verifier (stand-in)"
        }
    }

    fn commit_l_invalid(&self, claim: &ClaimMini) -> (h: [u8; 32]) {
        hashlock_commit(&l_invalid(claim))
    }

    fn evaluate<O: LabelOpening>(&self, claim: &ClaimMini, _opening: &O) -> (r: EvaluationResult) {
        if claim.verify() {
            EvaluationResult::Valid
        } else {
            EvaluationResult::Invalid { l_invalid: l_invalid(claim) }
        }
    }

    proof fn lemma_invalid_opens_commitment(&self, claim: ClaimMini) {
    }
}

} // verus!
