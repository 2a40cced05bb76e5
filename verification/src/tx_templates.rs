//! Logical descriptions of the three core transactions: Assert, Disprove and
//! Timeout / Withdraw.

use crate::claim_mini::ClaimMini;
use crate::text::{bytes_debug, decimal, push_bytes_debug, push_decimal};
use vstd::prelude::*;
use vstd::string::StringExecFns;

verus! {

/// Relative timelock (in blocks) after which the Engine may spend the timeout path.
pub const DEFAULT_DISPUTE_WINDOW: u32 = 144;

/// Logical description of the Assert transaction, posted by the Engine to
/// claim that a particular `ClaimMini` is true.
#[derive(Clone, Debug)]
pub struct AssertTemplate {
    /// Previous connector or funding outpoint (`txid:vout`).
    pub funding_outpoint: String,
    /// The claim being asserted (public statement).
    pub claim: ClaimMini,
    /// Commitment to the false-output label: `H(L*)`.
    pub hash_of_false_label: [u8; 32],
    /// Relative timelock for the timeout path.
    pub dispute_window: u32,
}

/// Logical description of the Disprove transaction: anyone who obtains `L*`
/// can spend the Assert connector via the hashlock path.
#[derive(Clone, Debug)]
pub struct DisproveTemplate {
    /// The Assert transaction id + vout of the connector.
    pub assert_outpoint: String,
    /// The false-output label `L*` obtained from circuit evaluation.
    pub false_label: [u8; 32],
    /// Where the slashed value goes.
    pub slash_destination: String,
}

/// Logical description of the Timeout / Withdraw transaction.
#[derive(Clone, Debug)]
pub struct TimeoutTemplate {
    /// The Assert connector outpoint (must still be unspent).
    pub assert_outpoint: String,
    /// The actual value being claimed.
    pub reserve_outpoint: String,
    /// Engine's public key.
    pub engine_pubkey: String,
}

/// Convenience bundle that shows the whole happy / unhappy path.
#[derive(Clone, Debug)]
pub struct DisputeFlow {
    pub assert: AssertTemplate,
    pub disprove: Option<DisproveTemplate>,
    pub timeout: Option<TimeoutTemplate>,
}

/// A Disprove template for the given connector, label and destination.
pub fn disprove_template(assert_outpoint: &str, l_invalid: [u8; 32], slash_destination: &str) -> (d:
    DisproveTemplate)
    ensures
        d.assert_outpoint@ == assert_outpoint@,
        d.false_label == l_invalid,
        d.slash_destination@ == slash_destination@,
{
    DisproveTemplate {
        assert_outpoint: String::from_str(assert_outpoint),
        false_label: l_invalid,
        slash_destination: String::from_str(slash_destination),
    }
}

/// A Timeout template for the given connector, reserve and Engine key.
pub fn timeout_template(assert_outpoint: &str, reserve_outpoint: &str, engine_pubkey: &str) -> (t:
    TimeoutTemplate)
    ensures
        t.assert_outpoint@ == assert_outpoint@,
        t.reserve_outpoint@ == reserve_outpoint@,
        t.engine_pubkey@ == engine_pubkey@,
{
    TimeoutTemplate {
        assert_outpoint: String::from_str(assert_outpoint),
        reserve_outpoint: String::from_str(reserve_outpoint),
        engine_pubkey: String::from_str(engine_pubkey),
    }
}

/// An Assert template with the default dispute window.
pub fn assert_template(funding_outpoint: &str, claim: ClaimMini, h_l_invalid: [u8; 32]) -> (a:
    AssertTemplate)
    ensures
        a.funding_outpoint@ == funding_outpoint@,
        a.claim == claim,
        a.hash_of_false_label == h_l_invalid,
        a.dispute_window == DEFAULT_DISPUTE_WINDOW,
{
    AssertTemplate {
        funding_outpoint: String::from_str(funding_outpoint),
        claim,
        hash_of_false_label: h_l_invalid,
        dispute_window: DEFAULT_DISPUTE_WINDOW,
    }
}


/// Text of the connector locking script for a hashlock and a dispute window.
pub open spec fn connector_description(h: [u8; 32], window: u32) -> Seq<char> {
    "Taproot\n├── Leaf 0 (Disprove):  OP_SHA256 <"@ + bytes_debug(h@)
        + "> OP_EQUAL\n└── Leaf 1 (Timeout):   <"@ + decimal(window as nat)
        + "> OP_CSV  OP_DROP  <Engine_pubkey> OP_CHECKSIG"@
}

/// Text of the Timeout spend with the default dispute window.
pub open spec fn timeout_description() -> Seq<char> {
    "Inputs:\n0: Assert connector  →  must satisfy: <"@ + decimal(DEFAULT_DISPUTE_WINDOW as nat)
        + "> OP_CSV + Engine signature\n1: Reserve / Deposit →  pre-signed covenant / CheckCovenant\nOutput: Engine receives the funds"@
}

impl AssertTemplate {
    /// Human-readable description of the locking script of the connector output.
    pub fn connector_script_description(&self) -> (d: String)
        ensures
            d@ == connector_description(self.hash_of_false_label, self.dispute_window),
    {
        let mut d = String::from_str("Taproot\n├── Leaf 0 (Disprove):  OP_SHA256 <");
        push_bytes_debug(&mut d, &self.hash_of_false_label);
        d.append("> OP_EQUAL\n└── Leaf 1 (Timeout):   <");
        push_decimal(&mut d, self.dispute_window as u64);
        d.append("> OP_CSV  OP_DROP  <Engine_pubkey> OP_CHECKSIG");
        d
    }
}

impl DisproveTemplate {
    /// Description of the Disprove spend.
    pub fn script_description(&self) -> (d: String)
        ensures
            d@ == "Input: Assert connector (hashlock path)\nWitness: <L*>\nEffect: spends the connector, preventing Engine from ever taking the timeout path"@,
    {
        String::from_str(
            "Input: Assert connector (hashlock path)\nWitness: <L*>\nEffect: spends the connector, preventing Engine from ever taking the timeout path",
        )
    }
}

impl TimeoutTemplate {
    /// Description of the Timeout spend (relative timelock + Engine signature).
    pub fn script_description(&self) -> (d: String)
        ensures
            d@ == timeout_description(),
    {
        let mut d = String::from_str("Inputs:\n0: Assert connector  →  must satisfy: <");
        push_decimal(&mut d, DEFAULT_DISPUTE_WINDOW as u64);
        d.append(
            "> OP_CSV + Engine signature\n1: Reserve / Deposit →  pre-signed covenant / CheckCovenant\nOutput: Engine receives the funds",
        );
        d
    }
}
} // verus!
