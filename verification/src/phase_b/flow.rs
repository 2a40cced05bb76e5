//! End-to-end Phase B flow (adaptor opening + the same Disprove / Timeout graph).

use crate::backend::{
    hashlock_commit, result_opens, CircuitBackend, ClaimMiniBackend, EvaluationResult,
};
use crate::claim_mini::ClaimMini;
use crate::hashing::{eq32, sha256, sha256_of};
use crate::phase_a::flow::{claim_bytes_of, serialize_claim};
use crate::phase_b::adaptor::{is_secret_scalar, AdaptorError};
use crate::phase_b::opening::{
    adaptor_label_outcome, adaptor_opening_for, lemma_opening_extracts_its_secret, AdaptorOpening,
};
use crate::tx_templates::{
    assert_template, disprove_template, timeout_template, AssertTemplate, DisproveTemplate,
    TimeoutTemplate, DEFAULT_DISPUTE_WINDOW,
};
use vstd::prelude::*;

verus! {

/// What a Phase B challenger concludes: a broken opening, or one that does not
/// bind the claim, counts as `Valid` (the Engine cannot be slashed on it);
/// otherwise the backend decides.
pub open spec fn phase_b_evaluation<B: CircuitBackend<Claim = ClaimMini>>(
    backend: B,
    claim: ClaimMini,
    opening: AdaptorOpening,
) -> EvaluationResult {
    if adaptor_label_outcome(opening) is Err {
        EvaluationResult::Valid
    } else if opening.public_inputs_hash != sha256_of(claim_bytes_of(claim)) {
        EvaluationResult::Valid
    } else {
        backend.evaluation(claim)
    }
}

/// Dispute flow with Phase B adaptor openings.
pub struct PhaseBFlow<B: CircuitBackend = ClaimMiniBackend> {
    backend: B,
}

impl Default for PhaseBFlow<ClaimMiniBackend> {
    /// A flow over the default [`ClaimMiniBackend`].
    fn default() -> (f: Self)
        ensures
            f.spec_backend() == ClaimMiniBackend,
    {
        Self::new(ClaimMiniBackend)
    }
}

impl<B: CircuitBackend<Claim = ClaimMini>> PhaseBFlow<B> {
    /// The backend of a flow.
    pub closed spec fn spec_backend(&self) -> B {
        self.backend
    }

    /// Create a flow with the given circuit backend.
    pub fn new(backend: B) -> (f: Self)
        ensures
            f.spec_backend() == backend,
    {
        Self { backend }
    }

    /// Borrow the active backend.
    pub fn backend(&self) -> (b: &B)
        ensures
            *b == self.spec_backend(),
    {
        &self.backend
    }

    /// Engine: adaptor opening (fresh adaptor secret) + hashlock commitment.
    pub fn engine_create_assert(&self, claim: &ClaimMini, funding_outpoint: &str, signer: &[u8; 32]) -> (r:
        Result<(AssertTemplate, AdaptorOpening, [u8; 32]), AdaptorError>)
        requires
            is_secret_scalar(*signer),
        ensures
            r matches Err(e) ==> e == AdaptorError::BadSecret,
            r matches Ok(t) ==> {
                &&& t.0.funding_outpoint@ == funding_outpoint@
                &&& t.0.claim == *claim
                &&& t.0.hash_of_false_label == t.2
                &&& t.0.dispute_window == DEFAULT_DISPUTE_WINDOW
                &&& exists|s: [u8; 32]|
                    is_secret_scalar(s) && adaptor_opening_for(
                        t.1,
                        0,
                        claim_bytes_of(*claim),
                        *signer,
                        s,
                    )
                &&& t.2 == self.spec_backend().committed_hashlock(*claim)
            },
    {
        let claim_bytes = serialize_claim(claim);
        let opening = match AdaptorOpening::create(0, claim_bytes.as_slice(), signer) {
            Ok(o) => o,
            Err(e) => return Err(e),
        };
        let h_l_invalid = self.backend.commit_l_invalid(claim);
        let assert_tmpl = assert_template(funding_outpoint, *claim, h_l_invalid);
        Ok((assert_tmpl, opening, h_l_invalid))
    }

    fn evaluate_inner(&self, claim: &ClaimMini, opening: &AdaptorOpening) -> (r: EvaluationResult)
        ensures
            r == phase_b_evaluation(self.spec_backend(), *claim, *opening),
    {
        match opening.derive_label_material() {
            Ok(_) => {},
            Err(_) => return EvaluationResult::Valid,
        }
        let claim_bytes = serialize_claim(claim);
        let expected_hash = sha256(claim_bytes.as_slice());
        if !eq32(&opening.public_inputs_hash, &expected_hash) {
            return EvaluationResult::Valid;
        }
        self.backend.evaluate(claim, opening)
    }

    /// Challenger: extract the adaptor secret, check the opening binds the
    /// claim, then evaluate via the backend. An `Invalid` label that does not
    /// open the committed hashlock is a broken protocol run on which the
    /// challenger stops; such inputs are excluded here (see
    /// [`Self::checked_challenger_evaluate`]).
    pub fn challenger_evaluate(
        &self,
        claim: &ClaimMini,
        opening: &AdaptorOpening,
        committed_h_l_invalid: &[u8; 32],
    ) -> (r: EvaluationResult)
        requires
            result_opens(
                phase_b_evaluation(self.spec_backend(), *claim, *opening),
                *committed_h_l_invalid,
            ),
        ensures
            r == phase_b_evaluation(self.spec_backend(), *claim, *opening),
    {
        self.evaluate_inner(claim, opening)
    }

    /// Challenger evaluation that reports a label not opening the committed
    /// hashlock as `None` instead of aborting.
    pub fn checked_challenger_evaluate(
        &self,
        claim: &ClaimMini,
        opening: &AdaptorOpening,
        committed_h_l_invalid: &[u8; 32],
    ) -> (r: Option<EvaluationResult>)
        ensures
            r == (if result_opens(
                phase_b_evaluation(self.spec_backend(), *claim, *opening),
                *committed_h_l_invalid,
            ) {
                Some(phase_b_evaluation(self.spec_backend(), *claim, *opening))
            } else {
                None
            }),
    {
        let result = self.evaluate_inner(claim, opening);
        match result {
            EvaluationResult::Valid => Some(result),
            EvaluationResult::Invalid { l_invalid } => {
                let h = hashlock_commit(&l_invalid);
                if eq32(&h, committed_h_l_invalid) {
                    Some(result)
                } else {
                    None
                }
            },
        }
    }

    /// Build a Disprove template when evaluation returned `Invalid`.
    pub fn build_disprove(assert_outpoint: &str, l_invalid: [u8; 32], slash_destination: &str) -> (d:
        DisproveTemplate)
        ensures
            d.assert_outpoint@ == assert_outpoint@,
            d.false_label == l_invalid,
            d.slash_destination@ == slash_destination@,
    {
        disprove_template(assert_outpoint, l_invalid, slash_destination)
    }

    /// Build a Timeout template (Engine side, after the dispute window).
    pub fn build_timeout(assert_outpoint: &str, reserve_outpoint: &str, engine_pubkey: &str) -> (t:
        TimeoutTemplate)
        ensures
            t.assert_outpoint@ == assert_outpoint@,
            t.reserve_outpoint@ == reserve_outpoint@,
            t.engine_pubkey@ == engine_pubkey@,
    {
        timeout_template(assert_outpoint, reserve_outpoint, engine_pubkey)
    }
}

/// An honest Engine's Phase B opening extracts cleanly and binds the claim, so
/// the challenger's outcome is the backend's own, and an `Invalid` outcome's
/// label opens the committed hashlock.
pub proof fn lemma_phase_b_honest_engine<B: CircuitBackend<Claim = ClaimMini>>(
    backend: B,
    claim: ClaimMini,
    opening: AdaptorOpening,
    signer: [u8; 32],
    secret: [u8; 32],
)
    requires
        is_secret_scalar(signer),
        is_secret_scalar(secret),
        adaptor_opening_for(opening, 0, claim_bytes_of(claim), signer, secret),
    ensures
        phase_b_evaluation(backend, claim, opening) == backend.evaluation(claim),
        result_opens(phase_b_evaluation(backend, claim, opening), backend.committed_hashlock(claim)),
{
    lemma_opening_extracts_its_secret(opening, 0, claim_bytes_of(claim), signer, secret);
    backend.lemma_invalid_opens_commitment(claim);
}

} // verus!
