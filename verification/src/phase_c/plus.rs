//! Phase C+ dispute flow: adaptor open → garbled Groth16 Evaluate →
//! Disprove|Timeout.
//!
//! Garbling and evaluating the Groth16 verifier need the
//! garbled-snark-verifier crate, which this crate does not link. The
//! configuration, the templates and the challenger's checks around a bundle's
//! commitment and evaluation stand here.

use crate::backend::{hashlock_of, EvaluationResult};
use crate::hashing::{eq32, sha256, sha256_of};
use crate::phase_a::flow::{claim_bytes_of, serialize_claim};
use crate::phase_b::adaptor::adaptor_error_text;
use crate::phase_b::opening::{adaptor_label_outcome, AdaptorOpening};
use crate::claim_mini::ClaimMini;
use crate::phase_c::reconstruct::ShareBundle;
use crate::tx_templates::{disprove_template, timeout_template, DisproveTemplate, TimeoutTemplate};
use crate::witness::bundle_view;
use vstd::prelude::*;
use vstd::string::StringExecFns;

verus! {

/// Constraint parameter `k` → `2^k` constraints in the stand-in circuit.
pub const DEFAULT_K: u32 = 6;

/// Phase C+ flow configuration.
#[derive(Clone, Debug)]
pub struct PhaseCPlusFlow {
    pub share_bundle: Option<ShareBundle>,
    pub k: u32,
}

impl PhaseCPlusFlow {
    /// Default configuration: no bundle, `k = DEFAULT_K`.
    pub fn new() -> (f: Self)
        ensures
            f.share_bundle is None,
            f.k == DEFAULT_K,
    {
        PhaseCPlusFlow { share_bundle: None, k: DEFAULT_K }
    }

    /// Configuration with check-set shares and `k = DEFAULT_K`.
    pub fn with_share_bundle(bundle: ShareBundle) -> (f: Self)
        ensures
            bundle_view(f.share_bundle) == Some(bundle@),
            f.k == DEFAULT_K,
    {
        PhaseCPlusFlow { share_bundle: Some(bundle), k: DEFAULT_K }
    }

    /// The same configuration with another `k`.
    pub fn with_k(self, k: u32) -> (f: Self)
        ensures
            bundle_view(f.share_bundle) == bundle_view(self.share_bundle),
            f.k == k,
    {
        let mut f = self;
        f.k = k;
        f
    }

    /// Flow name for logs.
    pub fn name(&self) -> (n: &'static str)
        ensures
            n@ == "phase-c+/garbled-groth16"@,
    {
        "phase-c+/garbled-groth16"
    }

    /// Build a Disprove template when evaluation returned `Invalid`.
    pub fn build_disprove(assert_outpoint: &str, l_invalid: [u8; 32], slash_destination: &str) -> (d:
        DisproveTemplate)
        ensures
            d.assert_outpoint@ == assert_outpoint@,
            d.false_label == l_invalid,
            d.slash_destination@ == slash_destination@,
    {
        disprove_template(assert_outpoint, l_invalid, slash_destination)
    }

    /// Build a Timeout template (Engine side, after the dispute window).
    pub fn build_timeout(assert_outpoint: &str, reserve_outpoint: &str, engine_pubkey: &str) -> (t:
        TimeoutTemplate)
        ensures
            t.assert_outpoint@ == assert_outpoint@,
            t.reserve_outpoint@ == reserve_outpoint@,
            t.engine_pubkey@ == engine_pubkey@,
    {
        timeout_template(assert_outpoint, reserve_outpoint, engine_pubkey)
    }
}

/// What the Phase C+ challenger concludes from an opening and a bundle: the
/// opening must extract and bind the claim, the bundle must commit to the
/// Assert hashlock, and then its evaluation stands.
pub open spec fn plus_challenge_outcome(
    claim: ClaimMini,
    opening: AdaptorOpening,
    bundle_commit: [u8; 32],
    bundle_result: Result<EvaluationResult, Seq<char>>,
    committed: [u8; 32],
) -> Result<EvaluationResult, Seq<char>> {
    match adaptor_label_outcome(opening) {
        Err(e) => Err(adaptor_error_text(e)),
        Ok(_) => if opening.public_inputs_hash != sha256_of(claim_bytes_of(claim)) {
            Err("adaptor opening does not bind claim"@)
        } else if bundle_commit != committed {
            Err("bundle L_invalid does not match Assert hashlock"@)
        } else {
            bundle_result
        },
    }
}

/// The views of a result with a text error.
pub open spec fn text_result_view(r: Result<EvaluationResult, String>) -> Result<
    EvaluationResult,
    Seq<char>,
> {
    match r {
        Ok(x) => Ok(x),
        Err(s) => Err(s@),
    }
}

impl PhaseCPlusFlow {
    /// Challenger: check that the adaptor opening extracts and binds the claim
    /// and that the bundle commits to the Assert hashlock, then take the
    /// bundle's evaluation. `bundle_commit` and `bundle_result` are what the
    /// garbled verifier computed from the bundle. An `Invalid` evaluation's
    /// label must open the committed hashlock: a label that does not is a
    /// broken protocol run, on which the challenger stops.
    pub fn challenger_evaluate(
        &self,
        claim: &ClaimMini,
        opening: &AdaptorOpening,
        bundle_commit: [u8; 32],
        bundle_result: Result<EvaluationResult, String>,
        committed_h_l_invalid: &[u8; 32],
    ) -> (r: Result<EvaluationResult, String>)
        requires
            plus_challenge_outcome(
                *claim,
                *opening,
                bundle_commit,
                text_result_view(bundle_result),
                *committed_h_l_invalid,
            ) matches Ok(EvaluationResult::Invalid { l_invalid }) ==> hashlock_of(l_invalid)
                == *committed_h_l_invalid,
        ensures
            text_result_view(r) == plus_challenge_outcome(
                *claim,
                *opening,
                bundle_commit,
                text_result_view(bundle_result),
                *committed_h_l_invalid,
            ),
    {
        match opening.derive_label_material() {
            Err(e) => return Err(e.to_string()),
            Ok(_) => {},
        }
        let claim_bytes = serialize_claim(claim);
        let expected_hash = sha256(claim_bytes.as_slice());
        if !eq32(&opening.public_inputs_hash, &expected_hash) {
            return Err(String::from_str("adaptor opening does not bind claim"));
        }
        if !eq32(&bundle_commit, committed_h_l_invalid) {
            return Err(String::from_str("bundle L_invalid does not match Assert hashlock"));
        }
        bundle_result
    }
}

} // verus!
