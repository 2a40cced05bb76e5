//! Phase A transaction parts for the Taproot connector: the two leaf scripts,
//! the connector's Taproot output and control blocks, the amounts, the
//! script-path witness stacks, and which spend resolves a dispute. Wrapping
//! them into `bitcoin` transactions happens at the edge.
//!
//!   - Assert   (connector with Disprove hashlock + Timeout CSV)
//!   - Disprove (spend connector with `L_invalid`)
//!   - Timeout  (spend connector after the relative timelock)

use crate::backend::{hashlock_of, CircuitBackend, EvaluationResult};
use crate::claim_mini::ClaimMini;
use crate::hashing::sha256_of;
use crate::carrier::{
    push_bytes, push_int_bytes, script_push_int, script_push_opcode, script_push_slice,
};
use crate::phase_b::adaptor::{
    is_secret_scalar, is_xonly_encoding, xonly_of_secret, xonly_parses, xonly_pubkey_of,
};
use bitcoin::secp256k1::{Scalar, Secp256k1, XOnlyPublicKey};
use bitcoin::taproot::{LeafVersion, TapTweakHash, TaprootBuilder};
use bitcoin::ScriptBuf;
use crate::tx_templates::DEFAULT_DISPUTE_WINDOW;
use vstd::prelude::*;

verus! {

pub const OP_SHA256: u8 = 0xa8;

pub const OP_EQUALVERIFY: u8 = 0x88;

pub const OP_TRUE: u8 = 0x51;

pub const OP_CSV: u8 = 0xb2;

pub const OP_DROP: u8 = 0x75;

pub const OP_CHECKSIG: u8 = 0xac;

/// Rough fee the Assert transaction leaves out of the change (sats).
pub const ASSERT_FEE_SATS: u64 = 500;

/// Leaf 0 (Disprove): `OP_SHA256 <H(L_invalid)> OP_EQUALVERIFY OP_TRUE`.
pub open spec fn disprove_leaf_bytes(h_l_invalid: [u8; 32]) -> Seq<u8> {
    seq![OP_SHA256] + push_bytes(h_l_invalid@) + seq![OP_EQUALVERIFY, OP_TRUE]
}

/// Leaf 1 (Timeout): `<Δ> OP_CSV OP_DROP <engine x-only key> OP_CHECKSIG`.
pub open spec fn timeout_leaf_bytes(engine_xonly: [u8; 32]) -> Seq<u8> {
    push_int_bytes(DEFAULT_DISPUTE_WINDOW as nat) + seq![OP_CSV, OP_DROP] + push_bytes(
        engine_xonly@,
    ) + seq![OP_CHECKSIG]
}

/// The Disprove leaf script for a hashlock.
pub fn disprove_leaf_script(h_l_invalid: &[u8; 32]) -> (script: Vec<u8>)
    ensures
        script@ == disprove_leaf_bytes(*h_l_invalid),
{
    let s = script_push_opcode(Vec::new(), OP_SHA256);
    let s = match script_push_slice(s, h_l_invalid) {
        Some(x) => x,
        None => Vec::new(),
    };
    let s = script_push_opcode(s, OP_EQUALVERIFY);
    let s = script_push_opcode(s, OP_TRUE);
    proof {
        assert(s@ =~= disprove_leaf_bytes(*h_l_invalid));
    }
    s
}

/// The Timeout leaf script for the Engine's key (given by its secret).
pub fn timeout_leaf_script(engine_secret: &[u8; 32]) -> (script: Vec<u8>)
    requires
        is_secret_scalar(*engine_secret),
    ensures
        script@ == timeout_leaf_bytes(xonly_pubkey_of(*engine_secret)),
{
    let engine_xonly = xonly_of_secret(engine_secret);
    let s = script_push_int(Vec::new(), DEFAULT_DISPUTE_WINDOW as i64);
    let s = script_push_opcode(s, OP_CSV);
    let s = script_push_opcode(s, OP_DROP);
    let s = match script_push_slice(s, &engine_xonly) {
        Some(x) => x,
        None => Vec::new(),
    };
    let s = script_push_opcode(s, OP_CHECKSIG);
    proof {
        assert(s@ =~= timeout_leaf_bytes(engine_xonly));
    }
    s
}

/// Why an amount cannot be paid.
#[derive(Debug, Clone, Copy, PartialEq, Eq)]
pub enum AmountError {
    /// The funding does not cover the connector.
    InsufficientFunds,
    /// The funding covers the connector but not the fee.
    InsufficientFundsForFee,
    /// The connector does not cover the spend fee.
    FeeTooHigh,
}

impl AmountError {
    /// The message the transaction builders report.
    pub fn message(&self) -> (m: &'static str)
        ensures
            m@ == match self {
                AmountError::InsufficientFunds => "insufficient funds"@,
                AmountError::InsufficientFundsForFee => "insufficient funds for fee"@,
                AmountError::FeeTooHigh => "fee too high"@,
            },
    {
        match self {
            AmountError::InsufficientFunds => "insufficient funds",
            AmountError::InsufficientFundsForFee => "insufficient funds for fee",
            AmountError::FeeTooHigh => "fee too high",
        }
    }
}

/// Change of the Assert transaction: `funding − connector − 500`.
pub fn assert_change_amount(funding: u64, connector: u64) -> (r: Result<u64, AmountError>)
    ensures
        connector > funding ==> r == Err::<u64, AmountError>(AmountError::InsufficientFunds),
        connector <= funding && funding - connector < ASSERT_FEE_SATS ==> r == Err::<
            u64,
            AmountError,
        >(AmountError::InsufficientFundsForFee),
        connector <= funding && funding - connector >= ASSERT_FEE_SATS ==> r == Ok::<
            u64,
            AmountError,
        >((funding - connector - ASSERT_FEE_SATS) as u64),
{
    let after_connector = match funding.checked_sub(connector) {
        Some(x) => x,
        None => return Err(AmountError::InsufficientFunds),
    };
    match after_connector.checked_sub(ASSERT_FEE_SATS) {
        Some(x) => Ok(x),
        None => Err(AmountError::InsufficientFundsForFee),
    }
}

/// Output of a connector spend (Disprove or Timeout): `connector − fee`.
pub fn spend_output_amount(connector: u64, fee: u64) -> (r: Result<u64, AmountError>)
    ensures
        fee > connector ==> r == Err::<u64, AmountError>(AmountError::FeeTooHigh),
        fee <= connector ==> r == Ok::<u64, AmountError>((connector - fee) as u64),
{
    match connector.checked_sub(fee) {
        Some(x) => Ok(x),
        None => Err(AmountError::FeeTooHigh),
    }
}

/// The relative-timelock sequence of the Timeout input (a block height).
pub fn timeout_sequence() -> (s: u32)
    ensures
        s == DEFAULT_DISPUTE_WINDOW,
{
    DEFAULT_DISPUTE_WINDOW
}

/// Witness stack of the Disprove script-path spend:
/// `<L_invalid> <disprove_script> <control_block>`.
pub fn disprove_witness(l_invalid: &[u8; 32], leaf_script: &[u8], control_block: &[u8]) -> (w: Vec<
    Vec<u8>,
>)
    ensures
        w@.len() == 3,
        w@[0]@ == l_invalid@,
        w@[1]@ == leaf_script@,
        w@[2]@ == control_block@,
{
    let mut w: Vec<Vec<u8>> = Vec::new();
    w.push(vstd::slice::slice_to_vec(l_invalid.as_slice()));
    w.push(vstd::slice::slice_to_vec(leaf_script));
    w.push(vstd::slice::slice_to_vec(control_block));
    w
}

/// Witness stack of the Timeout script-path spend:
/// `<signature> <timeout_script> <control_block>`.
pub fn timeout_witness(signature: &[u8; 64], leaf_script: &[u8], control_block: &[u8]) -> (w: Vec<
    Vec<u8>,
>)
    ensures
        w@.len() == 3,
        w@[0]@ == signature@,
        w@[1]@ == leaf_script@,
        w@[2]@ == control_block@,
{
    let mut w: Vec<Vec<u8>> = Vec::new();
    w.push(vstd::slice::slice_to_vec(signature.as_slice()));
    w.push(vstd::slice::slice_to_vec(leaf_script));
    w.push(vstd::slice::slice_to_vec(control_block));
    w
}

/// The spend that settles a dispute after the challenger evaluated.
#[derive(Debug, Clone, Copy, PartialEq, Eq)]
pub enum Resolution {
    /// Valid claim: wait out the dispute window, then the Engine takes Timeout.
    Timeout { wait_blocks: u32 },
    /// Invalid claim: anyone with `L*` takes Disprove at once.
    Disprove { l_invalid: [u8; 32] },
}

/// Which spend follows an evaluation.
pub fn resolution_for(eval: EvaluationResult) -> (r: Resolution)
    ensures
        match eval {
            EvaluationResult::Valid => r == (Resolution::Timeout {
                wait_blocks: DEFAULT_DISPUTE_WINDOW,
            }),
            EvaluationResult::Invalid { l_invalid } => r == (Resolution::Disprove { l_invalid }),
        },
{
    match eval {
        EvaluationResult::Valid => Resolution::Timeout { wait_blocks: DEFAULT_DISPUTE_WINDOW },
        EvaluationResult::Invalid { l_invalid } => Resolution::Disprove { l_invalid },
    }
}


// ---------------------------------------------------------------------------
// The connector's Taproot commitment
// ---------------------------------------------------------------------------

/// Opcode `OP_1`, the witness version of a Taproot output.
pub const OP_1: u8 = 0x51;

/// The output key (x-only, 32 bytes) of the Taproot tree over `internal`
/// with the two TapScript leaves `leaf0`, `leaf1` at depth 1.
pub uninterp spec fn taproot_two_leaf_key(internal: Seq<u8>, leaf0: Seq<u8>, leaf1: Seq<u8>) -> Seq<u8>;

/// Whether that tree's key tweak succeeds: the BIP341 tweak hash of the
/// internal key and the tree's root is below the curve order, and adding it
/// to the internal key does not give the point at infinity.
pub uninterp spec fn taproot_tweak_ok(internal: Seq<u8>, leaf0: Seq<u8>, leaf1: Seq<u8>) -> bool;

/// The serialized control block that spends `leaf` in that tree.
pub uninterp spec fn taproot_control_block(
    internal: Seq<u8>,
    leaf0: Seq<u8>,
    leaf1: Seq<u8>,
    leaf: Seq<u8>,
) -> Seq<u8>;

/// The tree `TaprootBuilder::new().add_leaf(1, leaf0).add_leaf(1, leaf1)`
/// (`try_into_node_info`) over the internal key (`XOnlyPublicKey::from_slice`),
/// then the key tweak with the crate's fallible calls:
/// `TapTweakHash::from_key_and_tweak` with the root, `Scalar::from_be_bytes`,
/// `XOnlyPublicKey::add_tweak`; the tweaked key serialized. These are the
/// steps `finalize` takes, where the two failures are panics instead. Two
/// leaves at depth 1 always make a complete tree, so neither `add_leaf` nor
/// `try_into_node_info` fails.
#[verifier::external_body]
fn taproot_output_key(internal: &[u8; 32], leaf0: &[u8], leaf1: &[u8]) -> (k: Option<[u8; 32]>)
    requires
        is_xonly_encoding(*internal),
    ensures
        k is Some <==> taproot_tweak_ok(internal@, leaf0@, leaf1@),
        k matches Some(x) ==> x@ == taproot_two_leaf_key(internal@, leaf0@, leaf1@),
{
    let key = XOnlyPublicKey::from_slice(internal).unwrap();
    let builder = TaprootBuilder::new().add_leaf(1, ScriptBuf::from_bytes(leaf0.to_vec())).unwrap();
    let builder = builder.add_leaf(1, ScriptBuf::from_bytes(leaf1.to_vec())).unwrap();
    let hash = TapTweakHash::from_key_and_tweak(key, Some(builder.try_into_node_info().unwrap().node_hash()));
    match Scalar::from_be_bytes(bitcoin::hashes::Hash::to_byte_array(hash)) {
        Ok(tweak) => match key.add_tweak(&Secp256k1::verification_only(), &tweak) {
            Ok((output_key, _)) => Some(output_key.serialize()),
            Err(_) => None,
        },
        Err(_) => None,
    }
}

/// The same tree, finalized over the internal key (`finalize`, whose key
/// tweak panics exactly where [`taproot_output_key`] returns `None`, hence
/// the `requires`); then `control_block` for `leaf` (TapScript), serialized.
/// For a leaf of the tree it is found; with one hashing partner it is 65
/// bytes: the leaf version with the output key's parity, the internal key,
/// the partner's hash.
#[verifier::external_body]
fn taproot_control_block_bytes(internal: &[u8; 32], leaf0: &[u8], leaf1: &[u8], leaf: &[u8]) -> (c:
    Vec<u8>)
    requires
        is_xonly_encoding(*internal),
        taproot_tweak_ok(internal@, leaf0@, leaf1@),
        leaf@ == leaf0@ || leaf@ == leaf1@,
    ensures
        c@ == taproot_control_block(internal@, leaf0@, leaf1@, leaf@),
        c@.len() == 65,
        c@.subrange(1, 33) == internal@,
{
    let key = XOnlyPublicKey::from_slice(internal).unwrap();
    let builder = TaprootBuilder::new().add_leaf(1, ScriptBuf::from_bytes(leaf0.to_vec())).unwrap();
    let builder = builder.add_leaf(1, ScriptBuf::from_bytes(leaf1.to_vec())).unwrap();
    let info = builder.finalize(&Secp256k1::verification_only(), key).unwrap();
    let script_ver = (ScriptBuf::from_bytes(leaf.to_vec()), LeafVersion::TapScript);
    info.control_block(&script_ver).unwrap().serialize()
}

/// The scriptPubKey of a Taproot output: `OP_1 <32-byte output key>`.
pub open spec fn p2tr_script_bytes(output_key: Seq<u8>) -> Seq<u8> {
    seq![OP_1, 32u8] + output_key
}

/// The connector's output key: the tree of the Disprove leaf (hashlock on
/// `h_l_invalid`) and the Timeout leaf (the Engine's key) over `internal`.
pub open spec fn connector_key(internal: [u8; 32], h_l_invalid: [u8; 32], engine_xonly: [u8; 32]) -> Seq<
    u8,
> {
    taproot_two_leaf_key(
        internal@,
        disprove_leaf_bytes(h_l_invalid),
        timeout_leaf_bytes(engine_xonly),
    )
}

/// The control block that spends `leaf` of the connector.
pub open spec fn connector_control_block(
    internal: [u8; 32],
    disprove_leaf: Seq<u8>,
    timeout_leaf: Seq<u8>,
    leaf: Seq<u8>,
) -> Seq<u8> {
    taproot_control_block(internal@, disprove_leaf, timeout_leaf, leaf)
}

/// The scriptPubKey of the Assert connector: a Taproot output over the
/// internal key `internal_xonly` committing to the Disprove leaf (hashlock
/// `h_l_invalid`) and the Timeout leaf (the Engine's key). `None` when
/// `internal_xonly` is not an x-only key or the tree's key tweak fails.
pub fn assert_connector_script(
    internal_xonly: &[u8; 32],
    h_l_invalid: &[u8; 32],
    engine_secret: &[u8; 32],
) -> (r: Option<Vec<u8>>)
    requires
        is_secret_scalar(*engine_secret),
    ensures
        r is Some <==> is_xonly_encoding(*internal_xonly) && taproot_tweak_ok(
            internal_xonly@,
            disprove_leaf_bytes(*h_l_invalid),
            timeout_leaf_bytes(xonly_pubkey_of(*engine_secret)),
        ),
        r matches Some(s) ==> s@ == p2tr_script_bytes(
            connector_key(*internal_xonly, *h_l_invalid, xonly_pubkey_of(*engine_secret)),
        ),
{
    if !xonly_parses(internal_xonly) {
        return None;
    }
    let disprove = disprove_leaf_script(h_l_invalid);
    let timeout = timeout_leaf_script(engine_secret);
    let key = match taproot_output_key(internal_xonly, disprove.as_slice(), timeout.as_slice()) {
        Some(k) => k,
        None => return None,
    };
    let s = script_push_opcode(Vec::new(), OP_1);
    match script_push_slice(s, &key) {
        Some(script) => {
            proof {
                assert(script@ =~= p2tr_script_bytes(key@));
            }
            Some(script)
        },
        None => None,
    }
}

/// The two outputs of the Assert transaction, as (amount, scriptPubKey): the
/// connector first, then the change (`funding − connector − fee`).
pub fn assert_outputs(
    funding: u64,
    connector: u64,
    connector_script: Vec<u8>,
    change_script: Vec<u8>,
) -> (r: Result<((u64, Vec<u8>), (u64, Vec<u8>)), AmountError>)
    ensures
        connector > funding ==> (r matches Err(e) && e == AmountError::InsufficientFunds),
        connector <= funding && funding - connector < ASSERT_FEE_SATS ==> (r matches Err(e) && e
            == AmountError::InsufficientFundsForFee),
        connector <= funding && funding - connector >= ASSERT_FEE_SATS ==> (r matches Ok((c, ch))
            && c.0 == connector && c.1@ == connector_script@ && ch.0 == funding - connector
            - ASSERT_FEE_SATS && ch.1@ == change_script@),
{
    match assert_change_amount(funding, connector) {
        Ok(change) => Ok(((connector, connector_script), (change, change_script))),
        Err(e) => Err(e),
    }
}

/// Witness stack that spends the connector by Disprove: `L_invalid`, the
/// Disprove leaf and its control block. `None` when `internal_xonly` is not
/// an x-only key or the tree's key tweak fails.
pub fn disprove_spend_stack(
    internal_xonly: &[u8; 32],
    h_l_invalid: &[u8; 32],
    timeout_leaf: &[u8],
    l_invalid: &[u8; 32],
) -> (r: Option<Vec<Vec<u8>>>)
    ensures
        r is Some <==> is_xonly_encoding(*internal_xonly) && taproot_tweak_ok(
            internal_xonly@,
            disprove_leaf_bytes(*h_l_invalid),
            timeout_leaf@,
        ),
        r matches Some(w) ==> {
            &&& w@.len() == 3
            &&& w@[0]@ == l_invalid@
            &&& w@[1]@ == disprove_leaf_bytes(*h_l_invalid)
            &&& w@[2]@ == connector_control_block(
                *internal_xonly,
                disprove_leaf_bytes(*h_l_invalid),
                timeout_leaf@,
                disprove_leaf_bytes(*h_l_invalid),
            )
            &&& w@[2]@.subrange(1, 33) == internal_xonly@
        },
{
    if !xonly_parses(internal_xonly) {
        return None;
    }
    let leaf = disprove_leaf_script(h_l_invalid);
    if taproot_output_key(internal_xonly, leaf.as_slice(), timeout_leaf).is_none() {
        return None;
    }
    let control = taproot_control_block_bytes(
        internal_xonly,
        leaf.as_slice(),
        timeout_leaf,
        leaf.as_slice(),
    );
    Some(disprove_witness(l_invalid, leaf.as_slice(), control.as_slice()))
}

/// Witness stack that spends the connector by Timeout: the signature, the
/// Timeout leaf (the Engine's key) and its control block. `None` when
/// `internal_xonly` is not an x-only key or the tree's key tweak fails.
pub fn timeout_spend_stack(
    internal_xonly: &[u8; 32],
    disprove_leaf: &[u8],
    engine_secret: &[u8; 32],
    signature: &[u8; 64],
) -> (r: Option<Vec<Vec<u8>>>)
    requires
        is_secret_scalar(*engine_secret),
    ensures
        r is Some <==> is_xonly_encoding(*internal_xonly) && taproot_tweak_ok(
            internal_xonly@,
            disprove_leaf@,
            timeout_leaf_bytes(xonly_pubkey_of(*engine_secret)),
        ),
        r matches Some(w) ==> {
            &&& w@.len() == 3
            &&& w@[0]@ == signature@
            &&& w@[1]@ == timeout_leaf_bytes(xonly_pubkey_of(*engine_secret))
            &&& w@[2]@ == connector_control_block(
                *internal_xonly,
                disprove_leaf@,
                timeout_leaf_bytes(xonly_pubkey_of(*engine_secret)),
                timeout_leaf_bytes(xonly_pubkey_of(*engine_secret)),
            )
            &&& w@[2]@.subrange(1, 33) == internal_xonly@
        },
{
    if !xonly_parses(internal_xonly) {
        return None;
    }
    let leaf = timeout_leaf_script(engine_secret);
    if taproot_output_key(internal_xonly, disprove_leaf, leaf.as_slice()).is_none() {
        return None;
    }
    let control = taproot_control_block_bytes(
        internal_xonly,
        disprove_leaf,
        leaf.as_slice(),
        leaf.as_slice(),
    );
    Some(timeout_witness(signature, leaf.as_slice(), control.as_slice()))
}


// ---------------------------------------------------------------------------
// Law: the revealed label opens the Disprove leaf
// ---------------------------------------------------------------------------

/// What the Disprove leaf `OP_SHA256 <h> OP_EQUALVERIFY OP_TRUE` does with
/// its witness item: `OP_SHA256` replaces the item by its SHA-256, which
/// `OP_EQUALVERIFY` compares with the pushed 32 bytes `h`; the spend is
/// accepted exactly when they are equal.
pub open spec fn disprove_leaf_accepts(leaf: Seq<u8>, item: Seq<u8>) -> bool {
    exists|h: Seq<u8>|
        #![trigger push_bytes(h)]
        {
            &&& h.len() == 32
            &&& leaf == seq![OP_SHA256] + push_bytes(h) + seq![OP_EQUALVERIFY, OP_TRUE]
            &&& sha256_of(item)@ == h
        }
}

/// A label opens the Disprove leaf built on its own hashlock: the leaf of
/// `hashlock_commit(L)` accepts the witness item `L`.
pub proof fn lemma_label_opens_its_disprove_leaf(l: [u8; 32])
    ensures
        disprove_leaf_accepts(disprove_leaf_bytes(hashlock_of(l)), l@),
{
    let h = hashlock_of(l)@;
    assert(disprove_leaf_bytes(hashlock_of(l)) == seq![OP_SHA256] + push_bytes(h) + seq![
        OP_EQUALVERIFY,
        OP_TRUE,
    ]);
}

/// The label an evaluation reveals for an invalid claim opens the Disprove
/// leaf built on the hashlock the Engine committed to for that claim.
pub proof fn lemma_revealed_label_opens_committed_leaf<B: CircuitBackend<Claim = ClaimMini>>(
    backend: B,
    claim: ClaimMini,
)
    ensures
        backend.evaluation(claim) matches EvaluationResult::Invalid { l_invalid }
            ==> disprove_leaf_accepts(
            disprove_leaf_bytes(backend.committed_hashlock(claim)),
            l_invalid@,
        ),
{
    backend.lemma_invalid_opens_commitment(claim);
    if let EvaluationResult::Invalid { l_invalid } = backend.evaluation(claim) {
        lemma_label_opens_its_disprove_leaf(l_invalid);
    }
}

} // verus!
