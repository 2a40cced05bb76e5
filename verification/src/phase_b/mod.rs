//! Phase B: Schnorr adaptor extractable opening.
//!
//! Replaces the Phase A direct seed with an adaptor-signature offset; the
//! Taproot connector / Disprove / Timeout graph stays unchanged.

pub mod adaptor;

pub use adaptor::{complete_and_extract, create_adapted_signature, extract_adaptor_secret};
pub mod opening;

pub use opening::AdaptorOpening;
pub mod flow;

pub use flow::PhaseBFlow;
pub mod gsv_adaptor;

pub use gsv_adaptor::{GsvAdaptorOpening, VERSION_GSV_ADAPTOR};
