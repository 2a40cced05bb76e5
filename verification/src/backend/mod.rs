//! Pluggable circuit backends.
//!
//! The on-chain Assert / Disprove / Timeout graph stays fixed. Only the
//! off-chain evaluation engine that produces `L_invalid` (or not) changes.

pub mod claim_mini;
pub mod gsv;

pub use claim_mini::ClaimMiniBackend;
pub use gsv::GarbledSnarkBackend;

use crate::hashing::{sha256, sha256_of};
use crate::opening::LabelOpening;
use vstd::prelude::*;

verus! {

/// Result of evaluating an Assert with a [`CircuitBackend`].
#[derive(Debug, Clone, Copy, PartialEq, Eq)]
pub enum EvaluationResult {
    /// Claim is valid: the Engine may later time out.
    Valid,
    /// Claim is invalid: the challenger obtained `L*` and can Disprove.
    Invalid { l_invalid: [u8; 32] },
}

/// The on-chain hashlock of a label: `H(L_invalid) = SHA256(L*)`.
pub open spec fn hashlock_of(l_invalid: [u8; 32]) -> [u8; 32] {
    sha256_of(l_invalid@)
}

/// On-chain hashlock commitment `H(L_invalid) = SHA256(L*)`; must match the
/// Disprove leaf (`OP_SHA256 <H> OP_EQUALVERIFY`).
pub fn hashlock_commit(l_invalid: &[u8; 32]) -> (h: [u8; 32])
    ensures
        h == hashlock_of(*l_invalid),
{
    sha256(l_invalid)
}

/// Whether an evaluation result opens the given hashlock (trivially so when it is `Valid`).
pub open spec fn result_opens(r: EvaluationResult, committed: [u8; 32]) -> bool {
    match r {
        EvaluationResult::Valid => true,
        EvaluationResult::Invalid { l_invalid } => hashlock_of(l_invalid) == committed,
    }
}

/// Off-chain circuit engine used by the dispute flow.
pub trait CircuitBackend {
    /// Public claim / statement type this backend evaluates.
    type Claim;

    /// The hashlock this backend commits to for a claim at Assert time.
    spec fn committed_hashlock(&self, claim: Self::Claim) -> [u8; 32];

    /// The outcome of evaluating a claim (the opening only unlocks the labels).
    spec fn evaluation(&self, claim: Self::Claim) -> EvaluationResult;

    /// Short name for logs / CLI.
    fn name(&self) -> &'static str;

    /// Setup / assert-time commitment published in the Disprove hashlock.
    fn commit_l_invalid(&self, claim: &Self::Claim) -> (h: [u8; 32])
        ensures
            h == self.committed_hashlock(*claim),
    ;

    /// Challenger evaluation after recovering the Assert opening.
    fn evaluate<O: LabelOpening>(&self, claim: &Self::Claim, opening: &O) -> (r: EvaluationResult)
        ensures
            r == self.evaluation(*claim),
    ;

    /// On invalid claims the returned `l_invalid` opens the committed hashlock:
    /// `hashlock_commit(l_invalid) == commit_l_invalid(claim)`.
    proof fn lemma_invalid_opens_commitment(&self, claim: Self::Claim)
        ensures
            result_opens(self.evaluation(claim), self.committed_hashlock(claim)),
    ;
}

} // verus!
