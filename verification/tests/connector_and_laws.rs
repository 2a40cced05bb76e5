use beacon::backend::EvaluationResult;
use beacon::phase_a::flow::serialize_claim;
use beacon::phase_c::expand_label_bytes;
use beacon::phase_c::garbled_outcome::{
    conclude_bundle_evaluation, conclude_garbled, conclude_store_evaluation, OutcomeFailure,
};
use beacon::phase_c::StoreError;
use beacon::phase_a::regtest_tx::{
    assert_connector_script, assert_outputs, disprove_leaf_script, disprove_spend_stack,
    timeout_leaf_script, timeout_spend_stack, AmountError, ASSERT_FEE_SATS,
};
use beacon::phase_b::gsv_adaptor::{GsvAdaptorError, GsvAdaptorOpening};
use beacon::phase_c::schedule::{sample_schedule, validate_schedule, CutAndChooseParams};
use beacon::tx_templates::AssertTemplate;
use beacon::witness::{AssertWitnessV1, WitnessError};
use beacon::{AssertOpening, ClaimMini, DirectSeedOpening};
use bitcoin::secp256k1::{Secp256k1, XOnlyPublicKey};
use bitcoin::taproot::{LeafVersion, TaprootBuilder, TaprootSpendInfo};
use bitcoin::ScriptBuf;

fn valid_claim() -> ClaimMini {
    ClaimMini::make_valid([0x01; 32], 100_000, 40_000, [0x10; 32], [0x11; 32], [0x12; 32], [0x13; 32])
}

fn secret(last: u8) -> [u8; 32] {
    let mut a = [0u8; 32];
    a[31] = last;
    a
}

fn xonly_of(s: &[u8; 32]) -> [u8; 32] {
    let secp = Secp256k1::new();
    let sk = bitcoin::secp256k1::SecretKey::from_slice(s).unwrap();
    sk.x_only_public_key(&secp).0.serialize()
}

fn reference_tree(internal: &[u8; 32], h: &[u8; 32], engine: &[u8; 32]) -> TaprootSpendInfo {
    let secp = Secp256k1::new();
    TaprootBuilder::new()
        .add_leaf(1, ScriptBuf::from_bytes(disprove_leaf_script(h)))
        .unwrap()
        .add_leaf(1, ScriptBuf::from_bytes(timeout_leaf_script(engine)))
        .unwrap()
        .finalize(&secp, XOnlyPublicKey::from_slice(internal).unwrap())
        .unwrap()
}

#[test]
fn connector_script_is_the_taproot_output_of_both_leaves() {
    let internal = xonly_of(&secret(7));
    let engine = secret(9);
    let h = [0x42; 32];
    let script = assert_connector_script(&internal, &h, &engine).unwrap();
    let info = reference_tree(&internal, &h, &engine);
    let expected = ScriptBuf::new_p2tr(&Secp256k1::new(), info.internal_key(), info.merkle_root());
    assert_eq!(script, expected.into_bytes());
    assert_eq!(script.len(), 34);
    assert_eq!(&script[..2], &[0x51, 0x20]);
    // The key commits to the hashlock: another hashlock gives another output.
    let other = assert_connector_script(&internal, &[0x43; 32], &engine).unwrap();
    assert_ne!(script, other);
    // The internal key is not the output key.
    assert_ne!(&script[2..], &internal[..]);
}

#[test]
fn connector_script_refuses_a_non_key_internal_value() {
    assert!(assert_connector_script(&[0xff; 32], &[0x42; 32], &secret(9)).is_none());
}

#[test]
fn assert_outputs_pays_connector_then_change() {
    let (c, ch) = assert_outputs(10_000, 3_000, vec![1, 2], vec![3]).unwrap();
    assert_eq!(c, (3_000, vec![1, 2]));
    assert_eq!(ch, (10_000 - 3_000 - ASSERT_FEE_SATS, vec![3]));
    assert_eq!(assert_outputs(100, 200, vec![], vec![]).unwrap_err(), AmountError::InsufficientFunds);
    assert_eq!(
        assert_outputs(3_400, 3_000, vec![], vec![]).unwrap_err(),
        AmountError::InsufficientFundsForFee
    );
}

#[test]
fn disprove_and_timeout_stacks_carry_bitcoin_control_blocks() {
    let internal = xonly_of(&secret(7));
    let engine = secret(9);
    let h = [0x42; 32];
    let info = reference_tree(&internal, &h, &engine);
    let d_leaf = disprove_leaf_script(&h);
    let t_leaf = timeout_leaf_script(&engine);

    let stack = disprove_spend_stack(&internal, &h, &t_leaf, &[0x11; 32]).unwrap();
    let cb = info
        .control_block(&(ScriptBuf::from_bytes(d_leaf.clone()), LeafVersion::TapScript))
        .unwrap()
        .serialize();
    assert_eq!(stack, vec![vec![0x11; 32], d_leaf.clone(), cb.clone()]);
    assert_eq!(cb.len(), 65);
    assert_eq!(&cb[1..33], &internal[..]);

    let sig = [0x22; 64];
    let stack = timeout_spend_stack(&internal, &d_leaf, &engine, &sig).unwrap();
    let cb_t = info
        .control_block(&(ScriptBuf::from_bytes(t_leaf.clone()), LeafVersion::TapScript))
        .unwrap()
        .serialize();
    assert_eq!(stack, vec![sig.to_vec(), t_leaf, cb_t.clone()]);
    assert_ne!(cb, cb_t);

    assert!(disprove_spend_stack(&[0xff; 32], &h, &[], &[0; 32]).is_none());
    assert!(timeout_spend_stack(&[0xff; 32], &d_leaf, &engine, &sig).is_none());
}

#[test]
fn gsv_create_with_nonce_is_deterministic_and_extracts_the_share() {
    let evaluator = secret(5);
    let share = secret(11);
    let nonce = secret(13);
    let a = GsvAdaptorOpening::create_with_nonce(3, b"claim", &evaluator, &share, &nonce).unwrap();
    let b = GsvAdaptorOpening::create_with_nonce(3, b"claim", &evaluator, &share, &nonce).unwrap();
    assert_eq!(a.encode_fields(), b.encode_fields());
    assert_eq!(a.extract_fr_be32().unwrap(), share);
    let c = GsvAdaptorOpening::create_with_nonce(3, b"claim", &evaluator, &share, &secret(17)).unwrap();
    assert_ne!(a.info.evaluator_nonce_commit, c.info.evaluator_nonce_commit);
    assert_eq!(c.extract_fr_be32().unwrap(), share);
}

#[test]
fn gsv_create_with_nonce_fails_when_the_commitments_cancel() {
    // nonce = n - share puts g·G + nonce·G at infinity.
    let order: [u8; 32] = [
        0xff, 0xff, 0xff, 0xff, 0xff, 0xff, 0xff, 0xff, 0xff, 0xff, 0xff, 0xff, 0xff, 0xff, 0xff,
        0xfe, 0xba, 0xae, 0xdc, 0xe6, 0xaf, 0x48, 0xa0, 0x3b, 0xbf, 0xd2, 0x5e, 0x8c, 0xd0, 0x36,
        0x41, 0x41,
    ];
    let mut nonce = order;
    nonce[31] -= 11;
    let r = GsvAdaptorOpening::create_with_nonce(3, b"claim", &secret(5), &secret(11), &nonce);
    assert!(matches!(r, Err(GsvAdaptorError::BadPoint)));
}

fn witness_for(instance: u32) -> AssertWitnessV1 {
    let bytes = serialize_claim(&valid_claim());
    let opening = AssertOpening::Direct(DirectSeedOpening::from_claim_bytes(instance, &bytes));
    AssertWitnessV1::new(bytes, opening, [0x42; 32], None)
}

#[test]
fn witness_with_trailing_bytes_is_refused() {
    let w = witness_for(0).with_ciphertext_hash([9; 32]);
    let mut enc = w.encode();
    assert!(AssertWitnessV1::decode(&enc).is_ok());
    enc.push(0);
    assert_eq!(AssertWitnessV1::decode(&enc).unwrap_err(), WitnessError::BadFormat);
}

#[test]
fn witness_with_changed_statement_instance_is_refused() {
    let mut w = witness_for(2);
    w.statement.instance_id = 3;
    assert_eq!(AssertWitnessV1::decode(&w.encode()).unwrap_err(), WitnessError::OpeningMismatch);
    let mut w = witness_for(2);
    w.statement.protocol_version = 9;
    assert_eq!(AssertWitnessV1::decode(&w.encode()).unwrap_err(), WitnessError::OpeningMismatch);
}

#[test]
fn decoded_witness_reencodes_to_its_input() {
    let enc = witness_for(1).encode();
    let w = AssertWitnessV1::decode(&enc).unwrap();
    assert_eq!(w.encode(), enc);
    // Early format: the blob stops before the ciphertext flag.
    let legacy = &enc[..enc.len() - 1];
    let w = AssertWitnessV1::decode(legacy).unwrap();
    let mut with_flag = legacy.to_vec();
    with_flag.push(0);
    assert_eq!(w.encode(), with_flag);
}

#[test]
fn sampled_schedule_has_exact_sizes_and_strict_order() {
    let p = CutAndChooseParams { n: 9, eval_count: 4 };
    for _ in 0..20 {
        let s = sample_schedule(p).unwrap();
        assert!(validate_schedule(&s, p).is_ok());
        assert_eq!(s.eval_set.len(), 4);
        assert_eq!(s.check_set.len(), 5);
        assert!(s.eval_set.windows(2).all(|w| w[0] < w[1]));
        assert!(s.check_set.windows(2).all(|w| w[0] < w[1]));
        assert_eq!(s.eval_instance, s.eval_set[0]);
    }
}

#[test]
fn assert_template_descriptions() {
    let tmpl = AssertTemplate {
        funding_outpoint: "x:0".into(),
        claim: valid_claim(),
        hash_of_false_label: [9; 32],
        dispute_window: 10,
    };
    assert_eq!(tmpl.dispute_window, 10);
    assert!(tmpl.connector_script_description().contains("Timeout"));
    assert!(tmpl.connector_script_description().contains("Disprove"));
}

#[test]
fn garbled_evaluation_conclusions() {
    let valid_label = b"valid-wire-label".to_vec();
    let invalid_label = b"invalid-wire-label".to_vec();
    let l_valid = expand_label_bytes(&valid_label);
    let l_invalid = expand_label_bytes(&invalid_label);
    let h = [7u8; 32];

    assert_eq!(
        conclude_garbled(&h, &h, true, &valid_label, &l_valid, &l_invalid),
        Ok(EvaluationResult::Valid)
    );
    assert_eq!(
        conclude_garbled(&h, &h, false, &invalid_label, &l_valid, &l_invalid),
        Ok(EvaluationResult::Invalid { l_invalid })
    );
    assert_eq!(
        conclude_garbled(&h, &[8; 32], true, &valid_label, &l_valid, &l_invalid),
        Err(OutcomeFailure::CiphertextHash)
    );
    assert_eq!(
        conclude_garbled(&h, &h, true, &invalid_label, &l_valid, &l_invalid),
        Err(OutcomeFailure::NotValidLabel)
    );
    assert_eq!(
        conclude_garbled(&h, &h, false, &valid_label, &l_valid, &l_invalid),
        Err(OutcomeFailure::NotInvalidLabel)
    );

    assert_eq!(
        conclude_bundle_evaluation(&h, &[8; 32], true, &valid_label, &l_valid, &l_invalid),
        Err("ciphertext hash mismatch (garble/evaluate desync)".to_string())
    );
    assert_eq!(
        conclude_bundle_evaluation(&h, &h, false, &valid_label, &l_valid, &l_invalid),
        Err("invalid proof but active label ≠ L_invalid".to_string())
    );
    assert!(matches!(
        conclude_store_evaluation(4, &h, &[8; 32], true, &valid_label, &l_valid, &l_invalid),
        Err(StoreError::HashMismatch { instance_id: 4, expected, got }) if expected == h && got == [8; 32]
    ));
    assert!(matches!(
        conclude_store_evaluation(4, &h, &h, true, &invalid_label, &l_valid, &l_invalid),
        Err(StoreError::BadMeta("active ≠ L_valid"))
    ));
    assert_eq!(
        conclude_store_evaluation(4, &h, &h, false, &invalid_label, &l_valid, &l_invalid).unwrap(),
        EvaluationResult::Invalid { l_invalid }
    );
}
