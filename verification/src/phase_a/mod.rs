//! Phase A: direct seed opening and the backend-agnostic dispute flow.

pub mod flow;
pub mod opening;
pub mod regtest_tx;
