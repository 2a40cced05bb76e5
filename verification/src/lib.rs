//! Beacon: dispute layer for asserted claims (Assert, off-chain Evaluate,
//! Timeout or Disprove), with verified claim checking, witness packing and
//! cut-and-choose bookkeeping.

pub mod hashing;
pub mod claim_mini;
pub mod backend;
pub mod phase_a;
pub mod tx_templates;
pub mod phase_b;
pub mod opening;
pub mod wire;
pub mod phase_c;
pub mod witness;
pub mod carrier;
pub mod text;

pub use backend::{
    hashlock_commit, CircuitBackend, ClaimMiniBackend, EvaluationResult, GarbledSnarkBackend,
};
pub use claim_mini::{ClaimMini, OutputWire};
pub use phase_a::flow::{deserialize_claim, serialize_claim, PhaseAFlow};
pub use phase_a::opening::DirectSeedOpening;
pub use carrier::{
    attach_op_return_output, extract_from_annex, extract_from_funding_witness,
    extract_from_op_return,
};
pub use opening::AssertOpening;
pub use phase_b::flow::PhaseBFlow;
pub use phase_c::ciphertext_store::{CiphertextMeta, StoreError};
pub use phase_c::flow::PhaseCFlow;
pub use phase_c::reconstruct::ShareBundle;
pub use phase_c::schedule::{
    check_openings_from_store, commits_from_store, fixed_schedule, open_check_instances,
    require_eval_committed, sample_schedule, validate_schedule, CutAndChooseParams,
    CutAndChooseSchedule,
};
pub use witness::{AssertWitnessV1, WitnessError, MAGIC};
