//! What a garbled evaluation concludes once the circuit has run: the
//! re-hashed ciphertext stream must match its commitment, and the active
//! output label must be the committed label of the value the evaluator got.
//! Running the garbled circuit itself happens elsewhere; these functions take
//! its results.

use crate::backend::EvaluationResult;
use crate::hashing::eq32;
use crate::phase_c::ciphertext_store::StoreError;
use crate::phase_c::labels::{expand_label_bytes, expanded_label};
use vstd::prelude::*;
use vstd::string::StringExecFns;

verus! {

/// Why a garbled evaluation is not accepted.
#[derive(Debug, Clone, Copy, PartialEq, Eq)]
pub enum OutcomeFailure {
    /// The evaluated stream does not hash to the committed ciphertext hash.
    CiphertextHash,
    /// The output was `true` but the active label is not `L_valid`.
    NotValidLabel,
    /// The output was `false` but the active label is not `L_invalid`.
    NotInvalidLabel,
}

/// The conclusion of a garbled evaluation: with matching ciphertext hashes,
/// output `value` and active label `active_label`, `Valid` when the output is
/// `true` and the expanded label is `L_valid`, `Invalid` (revealing
/// `L_invalid`) when it is `false` and the expanded label is `L_invalid`.
pub open spec fn garbled_outcome(
    expected_hash: [u8; 32],
    got_hash: [u8; 32],
    value: bool,
    active_label: Seq<u8>,
    l_valid: [u8; 32],
    l_invalid: [u8; 32],
) -> Result<EvaluationResult, OutcomeFailure> {
    if got_hash != expected_hash {
        Err(OutcomeFailure::CiphertextHash)
    } else if value {
        if expanded_label(active_label) != l_valid {
            Err(OutcomeFailure::NotValidLabel)
        } else {
            Ok(EvaluationResult::Valid)
        }
    } else if expanded_label(active_label) != l_invalid {
        Err(OutcomeFailure::NotInvalidLabel)
    } else {
        Ok(EvaluationResult::Invalid { l_invalid })
    }
}

/// Conclude a garbled evaluation (see [`garbled_outcome`]).
pub fn conclude_garbled(
    expected_hash: &[u8; 32],
    got_hash: &[u8; 32],
    value: bool,
    active_label: &[u8],
    l_valid: &[u8; 32],
    l_invalid: &[u8; 32],
) -> (r: Result<EvaluationResult, OutcomeFailure>)
    ensures
        r == garbled_outcome(*expected_hash, *got_hash, value, active_label@, *l_valid, *l_invalid),
{
    if !eq32(got_hash, expected_hash) {
        return Err(OutcomeFailure::CiphertextHash);
    }
    let active = expand_label_bytes(active_label);
    if value {
        if !eq32(&active, l_valid) {
            return Err(OutcomeFailure::NotValidLabel);
        }
        Ok(EvaluationResult::Valid)
    } else {
        if !eq32(&active, l_invalid) {
            return Err(OutcomeFailure::NotInvalidLabel);
        }
        Ok(EvaluationResult::Invalid { l_invalid: *l_invalid })
    }
}

/// The message a re-garbled proof evaluation reports for a failure.
pub open spec fn bundle_failure_text(f: OutcomeFailure) -> Seq<char> {
    match f {
        OutcomeFailure::CiphertextHash => "ciphertext hash mismatch (garble/evaluate desync)"@,
        OutcomeFailure::NotValidLabel => "valid proof but active label ≠ L_valid"@,
        OutcomeFailure::NotInvalidLabel => "invalid proof but active label ≠ L_invalid"@,
    }
}

/// The end of evaluating a re-garbled proof bundle: the stream hash the
/// evaluation saw against the bundle's commitment, then the output against
/// the bundle's labels; failures as messages.
pub fn conclude_bundle_evaluation(
    expected_hash: &[u8; 32],
    got_hash: &[u8; 32],
    is_proof_correct: bool,
    active_label: &[u8],
    l_valid: &[u8; 32],
    l_invalid: &[u8; 32],
) -> (r: Result<EvaluationResult, String>)
    ensures
        match garbled_outcome(
            *expected_hash,
            *got_hash,
            is_proof_correct,
            active_label@,
            *l_valid,
            *l_invalid,
        ) {
            Ok(e) => r == Ok::<EvaluationResult, String>(e),
            Err(f) => r matches Err(m) && m@ == bundle_failure_text(f),
        },
{
    match conclude_garbled(expected_hash, got_hash, is_proof_correct, active_label, l_valid, l_invalid) {
        Ok(e) => Ok(e),
        Err(OutcomeFailure::CiphertextHash) => {
            proof {
                reveal_strlit("ciphertext hash mismatch (garble/evaluate desync)");
            }
            Err(String::from_str("ciphertext hash mismatch (garble/evaluate desync)"))
        },
        Err(OutcomeFailure::NotValidLabel) => {
            proof {
                reveal_strlit("valid proof but active label ≠ L_valid");
            }
            Err(String::from_str("valid proof but active label ≠ L_valid"))
        },
        Err(OutcomeFailure::NotInvalidLabel) => {
            proof {
                reveal_strlit("invalid proof but active label ≠ L_invalid");
            }
            Err(String::from_str("invalid proof but active label ≠ L_invalid"))
        },
    }
}

/// The store error a failed evaluation from the ciphertext store reports.
pub open spec fn store_failure(
    instance_id: u32,
    expected_hash: [u8; 32],
    got_hash: [u8; 32],
    f: OutcomeFailure,
) -> StoreError {
    match f {
        OutcomeFailure::CiphertextHash => StoreError::HashMismatch {
            instance_id,
            expected: expected_hash,
            got: got_hash,
        },
        OutcomeFailure::NotValidLabel => StoreError::BadMeta("active ≠ L_valid"),
        OutcomeFailure::NotInvalidLabel => StoreError::BadMeta("active ≠ L_invalid"),
    }
}

/// The end of evaluating an instance streamed from the ciphertext store: the
/// hash of the streamed file against the metadata's commitment, then the
/// output (the claim's verdict bit) against the metadata's labels.
pub fn conclude_store_evaluation(
    instance_id: u32,
    expected_hash: &[u8; 32],
    got_hash: &[u8; 32],
    flag_bit: bool,
    active_label: &[u8],
    l_valid: &[u8; 32],
    l_invalid: &[u8; 32],
) -> (r: Result<EvaluationResult, StoreError>)
    ensures
        r == match garbled_outcome(
            *expected_hash,
            *got_hash,
            flag_bit,
            active_label@,
            *l_valid,
            *l_invalid,
        ) {
            Ok(e) => Ok(e),
            Err(f) => Err(store_failure(instance_id, *expected_hash, *got_hash, f)),
        },
{
    match conclude_garbled(expected_hash, got_hash, flag_bit, active_label, l_valid, l_invalid) {
        Ok(e) => Ok(e),
        Err(OutcomeFailure::CiphertextHash) => Err(
            StoreError::HashMismatch {
                instance_id,
                expected: *expected_hash,
                got: *got_hash,
            },
        ),
        Err(OutcomeFailure::NotValidLabel) => Err(StoreError::BadMeta("active ≠ L_valid")),
        Err(OutcomeFailure::NotInvalidLabel) => Err(StoreError::BadMeta("active ≠ L_invalid")),
    }
}

} // verus!
