//! Phase A circuit backend: evaluate a [`ClaimMini`] directly.

use super::{hashlock_commit, hashlock_of, result_opens, CircuitBackend, EvaluationResult};
use crate::claim_mini::{claim_false_label, claim_valid, ClaimMini, OutputWire};
use crate::opening::LabelOpening;
use crate::phase_a::opening::DirectSeedOpening;
use vstd::prelude::*;

verus! {

/// Lightweight backend used by Phase A demos and tests.
#[derive(Clone, Copy, Debug, Default)]
pub struct ClaimMiniBackend;

/// Claim Mini evaluation: `Valid` exactly when the claim is valid, otherwise its false label.
pub open spec fn claim_mini_evaluation(claim: ClaimMini) -> EvaluationResult {
    if claim_valid(claim) {
        EvaluationResult::Valid
    } else {
        EvaluationResult::Invalid { l_invalid: claim_false_label(claim) }
    }
}

impl CircuitBackend for ClaimMiniBackend {
    type Claim = ClaimMini;

    open spec fn committed_hashlock(&self, claim: ClaimMini) -> [u8; 32] {
        hashlock_of(claim_false_label(claim))
    }

    open spec fn evaluation(&self, claim: ClaimMini) -> EvaluationResult {
        claim_mini_evaluation(claim)
    }

    fn name(&self) -> (n: &'static str)
        ensures
            n@ == "claim-mini"@,
    {
        "claim-mini"
    }

    fn commit_l_invalid(&self, claim: &ClaimMini) -> (h: [u8; 32]) {
        let wire = OutputWire::from_claim(claim);
        hashlock_commit(&wire.false_label_placeholder)
    }

    fn evaluate<O: LabelOpening>(&self, claim: &ClaimMini, _opening: &O) -> (r: EvaluationResult) {
        let wire = OutputWire::from_claim(claim);
        if wire.value {
            EvaluationResult::Valid
        } else {
            EvaluationResult::Invalid { l_invalid: wire.false_label_placeholder }
        }
    }

    proof fn lemma_invalid_opens_commitment(&self, claim: ClaimMini) {
    }
}

} // verus!
