//! Phase C dispute flow: adaptor open → reconstruct → garbled Evaluate.

use crate::backend::{hashlock_commit, hashlock_of, result_opens, EvaluationResult};
use crate::claim_mini::ClaimMini;
use crate::hashing::{eq32, sha256, sha256_of};
use crate::phase_a::flow::{claim_bytes_of, serialize_claim};
use crate::phase_b::adaptor::{is_secret_scalar, AdaptorError};
use crate::phase_b::opening::{
    adaptor_label_outcome, adaptor_opening_for, lemma_opening_extracts_its_secret, AdaptorOpening,
};
use crate::phase_c::evaluate::{
    commit_l_invalid, evaluate_claim, phase_c_evaluation, phase_c_l_invalid,
};
use crate::phase_c::reconstruct::{reconstruct_label_seed, reconstructed_seed, ShareBundle};
use crate::tx_templates::{
    assert_template, disprove_template, timeout_template, AssertTemplate, DisproveTemplate,
    TimeoutTemplate, DEFAULT_DISPUTE_WINDOW,
};
use crate::witness::bundle_view;
use vstd::prelude::*;

verus! {

/// Engine / challenger flow for Phase C.
#[derive(Clone, Debug)]
pub struct PhaseCFlow {
    /// Optional check-set shares from cut-and-choose setup.
    pub share_bundle: Option<ShareBundle>,
}

/// The label material a Phase C flow reconstructs from an adaptor opening.
pub open spec fn phase_c_material(flow: PhaseCFlow, opening: AdaptorOpening) -> [u8; 32] {
    reconstructed_seed(bundle_view(flow.share_bundle), adaptor_label_outcome(opening)->Ok_0)
}

/// What a Phase C challenger concludes: a broken opening, or one that does not
/// bind the claim, counts as `Valid`; otherwise the garbled evaluation under
/// the reconstructed material decides.
pub open spec fn phase_c_challenge(flow: PhaseCFlow, claim: ClaimMini, opening: AdaptorOpening) -> EvaluationResult {
    if adaptor_label_outcome(opening) is Err {
        EvaluationResult::Valid
    } else if opening.public_inputs_hash != sha256_of(claim_bytes_of(claim)) {
        EvaluationResult::Valid
    } else {
        phase_c_evaluation(claim, phase_c_material(flow, opening))
    }
}

impl PhaseCFlow {
    /// A flow without a share bundle.
    pub fn new() -> (f: Self)
        ensures
            f.share_bundle is None,
    {
        PhaseCFlow { share_bundle: None }
    }

    /// A flow with check-set shares.
    pub fn with_share_bundle(bundle: ShareBundle) -> (f: Self)
        ensures
            bundle_view(f.share_bundle) == Some(bundle@),
    {
        PhaseCFlow { share_bundle: Some(bundle) }
    }

    /// Backend label for logs.
    pub fn name(&self) -> (n: &'static str)
        ensures
            n@ == "phase-c/stand-in"@,
    {
        "phase-c/stand-in"
    }

    fn material(&self, adaptor_share: &[u8; 32]) -> (m: [u8; 32])
        ensures
            m == reconstructed_seed(bundle_view(self.share_bundle), *adaptor_share),
    {
        match &self.share_bundle {
            None => reconstruct_label_seed(None, adaptor_share),
            Some(b) => reconstruct_label_seed(Some(b), adaptor_share),
        }
    }

    /// Engine: adaptor opening + Phase C hashlock commitment under the
    /// reconstructed label material.
    pub fn engine_create_assert(&self, claim: &ClaimMini, funding_outpoint: &str, signer: &[u8; 32]) -> (r:
        Result<(AssertTemplate, AdaptorOpening, [u8; 32]), AdaptorError>)
        requires
            is_secret_scalar(*signer),
        ensures
            r matches Err(e) ==> e == AdaptorError::BadSecret,
            r matches Ok(t) ==> {
                &&& t.0.funding_outpoint@ == funding_outpoint@
                &&& t.0.claim == *claim
                &&& t.0.hash_of_false_label == t.2
                &&& t.0.dispute_window == DEFAULT_DISPUTE_WINDOW
                &&& exists|s: [u8; 32]|
                    is_secret_scalar(s) && adaptor_opening_for(
                        t.1,
                        0,
                        claim_bytes_of(*claim),
                        *signer,
                        s,
                    )
                &&& t.2 == hashlock_of(phase_c_l_invalid(*claim, phase_c_material(*self, t.1)))
            },
    {
        let claim_bytes = serialize_claim(claim);
        let opening = match AdaptorOpening::create(0, claim_bytes.as_slice(), signer) {
            Ok(o) => o,
            Err(e) => return Err(e),
        };
        proof {
            let t = choose|t: [u8; 32]|
                is_secret_scalar(t) && adaptor_opening_for(
                    opening,
                    0,
                    claim_bytes_of(*claim),
                    *signer,
                    t,
                );
            lemma_opening_extracts_its_secret(opening, 0, claim_bytes_of(*claim), *signer, t);
        }
        let adaptor_share = match opening.derive_label_material() {
            Ok(s) => s,
            Err(e) => return Err(e),
        };
        let label_material = self.material(&adaptor_share);
        let h_l_invalid = commit_l_invalid(claim, &label_material);
        let assert_tmpl = assert_template(funding_outpoint, *claim, h_l_invalid);
        Ok((assert_tmpl, opening, h_l_invalid))
    }

    fn evaluate_inner(&self, claim: &ClaimMini, opening: &AdaptorOpening) -> (r: EvaluationResult)
        ensures
            r == phase_c_challenge(*self, *claim, *opening),
    {
        let adaptor_share = match opening.derive_label_material() {
            Ok(s) => s,
            Err(_) => return EvaluationResult::Valid,
        };
        let claim_bytes = serialize_claim(claim);
        let expected_hash = sha256(claim_bytes.as_slice());
        if !eq32(&opening.public_inputs_hash, &expected_hash) {
            return EvaluationResult::Valid;
        }
        let label_material = self.material(&adaptor_share);
        evaluate_claim(claim, &label_material)
    }

    /// Challenger: extract adaptor secret → reconstruct → Evaluate. An
    /// `Invalid` label that does not open the committed hashlock is a broken
    /// protocol run on which the challenger stops; such inputs are excluded
    /// here (see [`Self::checked_challenger_evaluate`]).
    pub fn challenger_evaluate(
        &self,
        claim: &ClaimMini,
        opening: &AdaptorOpening,
        committed_h_l_invalid: &[u8; 32],
    ) -> (r: EvaluationResult)
        requires
            result_opens(phase_c_challenge(*self, *claim, *opening), *committed_h_l_invalid),
        ensures
            r == phase_c_challenge(*self, *claim, *opening),
    {
        self.evaluate_inner(claim, opening)
    }

    /// Challenger evaluation that reports a label not opening the committed
    /// hashlock as `None` instead of aborting.
    pub fn checked_challenger_evaluate(
        &self,
        claim: &ClaimMini,
        opening: &AdaptorOpening,
        committed_h_l_invalid: &[u8; 32],
    ) -> (r: Option<EvaluationResult>)
        ensures
            r == (if result_opens(phase_c_challenge(*self, *claim, *opening), *committed_h_l_invalid) {
                Some(phase_c_challenge(*self, *claim, *opening))
            } else {
                None
            }),
    {
        let result = self.evaluate_inner(claim, opening);
        match result {
            EvaluationResult::Valid => Some(result),
            EvaluationResult::Invalid { l_invalid } => {
                let h = hashlock_commit(&l_invalid);
                if eq32(&h, committed_h_l_invalid) {
                    Some(result)
                } else {
                    None
                }
            },
        }
    }

    /// Build a Disprove template when evaluation returned `Invalid`.
    pub fn build_disprove(assert_outpoint: &str, l_invalid: [u8; 32], slash_destination: &str) -> (d:
        DisproveTemplate)
        ensures
            d.assert_outpoint@ == assert_outpoint@,
            d.false_label == l_invalid,
            d.slash_destination@ == slash_destination@,
    {
        disprove_template(assert_outpoint, l_invalid, slash_destination)
    }

    /// Build a Timeout template (Engine side, after the dispute window).
    pub fn build_timeout(assert_outpoint: &str, reserve_outpoint: &str, engine_pubkey: &str) -> (t:
        TimeoutTemplate)
        ensures
            t.assert_outpoint@ == assert_outpoint@,
            t.reserve_outpoint@ == reserve_outpoint@,
            t.engine_pubkey@ == engine_pubkey@,
    {
        timeout_template(assert_outpoint, reserve_outpoint, engine_pubkey)
    }
}

/// Against an honest Engine's Phase C Assert (same flow, hence the same share
/// bundle), the challenger's outcome is the garbled evaluation of the claim,
/// and an `Invalid` outcome's label opens the committed hashlock.
pub proof fn lemma_phase_c_honest_engine(
    flow: PhaseCFlow,
    claim: ClaimMini,
    opening: AdaptorOpening,
    signer: [u8; 32],
    secret: [u8; 32],
)
    requires
        is_secret_scalar(signer),
        is_secret_scalar(secret),
        adaptor_opening_for(opening, 0, claim_bytes_of(claim), signer, secret),
    ensures
        phase_c_challenge(flow, claim, opening) == phase_c_evaluation(
            claim,
            phase_c_material(flow, opening),
        ),
        result_opens(
            phase_c_challenge(flow, claim, opening),
            hashlock_of(phase_c_l_invalid(claim, phase_c_material(flow, opening))),
        ),
{
    lemma_opening_extracts_its_secret(opening, 0, claim_bytes_of(claim), signer, secret);
}

} // verus!
