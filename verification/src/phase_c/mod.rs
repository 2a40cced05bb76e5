//! Phase C: share reconstruction, garbled Evaluate stand-in, ciphertext
//! commitments and the cut-and-choose schedule.

pub mod evaluate;
pub mod garbled_outcome;
pub mod flow;
pub mod labels;
pub mod plus;
pub mod reconstruct;

pub use evaluate::{commit_l_invalid, evaluate_claim};
pub use flow::PhaseCFlow;
pub use labels::{expand_label_bytes, seed_from_label_material};
pub use plus::{PhaseCPlusFlow, DEFAULT_K};
pub use reconstruct::{reconstruct_label_seed, ShareBundle};
pub mod ciphertext_store;

pub use ciphertext_store::{CiphertextMeta, StoreError};
pub mod schedule;
pub mod sidecar;
