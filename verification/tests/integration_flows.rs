use beacon::backend::CircuitBackend;
use beacon::opening::LabelOpening;
use sha2::Digest;
use beacon::carrier::annex_item;
use beacon::phase_b::opening::AdaptorOpening;
use beacon::phase_b::{complete_and_extract, create_adapted_signature, extract_adaptor_secret};
use beacon::phase_c::ciphertext_store::{HASH_ALG_SHA256_FILE, META_FORMAT_V1};
use beacon::tx_templates::DEFAULT_DISPUTE_WINDOW;
use beacon::{
    attach_op_return_output, check_openings_from_store, commits_from_store, deserialize_claim,
    extract_from_funding_witness, extract_from_op_return, fixed_schedule, hashlock_commit,
    open_check_instances, require_eval_committed, sample_schedule, serialize_claim,
    validate_schedule, AssertOpening, AssertWitnessV1, CiphertextMeta, ClaimMini,
    ClaimMiniBackend, CutAndChooseParams, DirectSeedOpening, EvaluationResult,
    GarbledSnarkBackend, PhaseAFlow, PhaseBFlow, PhaseCFlow, ShareBundle, StoreError,
    WitnessError,
};
use bitcoin::{absolute, transaction::Version, Amount, OutPoint, ScriptBuf, Sequence, Transaction, TxIn, TxOut, Witness};

fn random_secret_key() -> [u8; 32] {
    secp256k1::SecretKey::new(&mut rand::thread_rng()).secret_bytes()
}


fn valid_claim() -> ClaimMini {
    ClaimMini::make_valid([0x01; 32], 100_000, 40_000, [0x10; 32], [0x11; 32], [0x12; 32], [0x13; 32])
}

fn invalid_claim() -> ClaimMini {
    let mut c = valid_claim();
    c.total_out = 250_000;
    c
}

fn bare_tx() -> Transaction {
    Transaction {
        version: Version::TWO,
        lock_time: absolute::LockTime::ZERO,
        input: vec![TxIn {
            previous_output: OutPoint::null(),
            script_sig: ScriptBuf::new(),
            sequence: Sequence::ENABLE_RBF_NO_LOCKTIME,
            witness: Witness::new(),
        }],
        output: vec![TxOut { value: Amount::from_sat(1000), script_pubkey: ScriptBuf::new() }],
    }
}

#[test]
fn claim_mini_valid_invalid_and_roots() {
    let good = valid_claim();
    assert!(good.verify());
    let bad = invalid_claim();
    assert!(!bad.verify());
    let mut wrong_root = good;
    wrong_root.t1 = [0xFF; 32];
    assert!(!wrong_root.verify());
}

#[test]
fn backends_commit_and_evaluate_align_with_hashlock() {
    let backend = ClaimMiniBackend;
    assert_eq!(backend.name(), "claim-mini");
    let good = valid_claim();
    let bad = invalid_claim();
    let bytes = serialize_claim(&good);
    let opening = DirectSeedOpening::from_claim_bytes(0, &bytes);

    let h = backend.commit_l_invalid(&bad);
    match backend.evaluate(&bad, &opening) {
        EvaluationResult::Invalid { l_invalid } => assert_eq!(hashlock_commit(&l_invalid), h),
        EvaluationResult::Valid => panic!("expected invalid"),
    }
    assert!(matches!(backend.evaluate(&good, &opening), EvaluationResult::Valid));

    let gsv = GarbledSnarkBackend;
    assert!(gsv.name().contains("garbled") || gsv.name().contains("gsv") || !gsv.name().is_empty());
    let h2 = gsv.commit_l_invalid(&bad);
    match gsv.evaluate(&bad, &opening) {
        EvaluationResult::Invalid { l_invalid } => assert_eq!(hashlock_commit(&l_invalid), h2),
        EvaluationResult::Valid => panic!("expected invalid"),
    }
}

#[test]
fn phase_a_happy_timeout_and_unhappy_disprove() {
    let flow = PhaseAFlow::new(ClaimMiniBackend);
    assert_eq!(flow.backend().name(), "claim-mini");

    let good = valid_claim();
    let (tmpl, opening, h) = flow.engine_create_assert(&good, "txid:0");
    assert_eq!(tmpl.dispute_window, DEFAULT_DISPUTE_WINDOW);
    assert!(tmpl.connector_script_description().contains("Disprove"));
    assert!(matches!(flow.challenger_evaluate(&good, &opening, &h), EvaluationResult::Valid));
    let timeout = PhaseAFlow::<ClaimMiniBackend>::build_timeout("a:0", "r:0", "pubkey");
    assert!(!timeout.assert_outpoint.is_empty());

    let bad = invalid_claim();
    let (tmpl, opening, h) = flow.engine_create_assert(&bad, "txid:1");
    match flow.challenger_evaluate(&bad, &opening, &h) {
        EvaluationResult::Invalid { l_invalid } => {
            assert_eq!(hashlock_commit(&l_invalid), h);
            assert_eq!(tmpl.hash_of_false_label, h);
            let d = PhaseAFlow::<ClaimMiniBackend>::build_disprove("a:0", l_invalid, "slash");
            assert!(!d.script_description().is_empty());
        }
        EvaluationResult::Valid => panic!("expected invalid"),
    }
}

#[test]
fn phase_b_adaptor_happy_and_unhappy() {
    let flow = PhaseBFlow::new(ClaimMiniBackend);
    let signer = random_secret_key();

    let good = valid_claim();
    let (_t, opening, h) = flow.engine_create_assert(&good, "funding:0", &signer).unwrap();
    assert!(matches!(flow.challenger_evaluate(&good, &opening, &h), EvaluationResult::Valid));
    let material = opening.derive_label_material().unwrap();
    assert_ne!(material, [0u8; 32]);

    let bad = invalid_claim();
    let (_t, opening, h) = flow.engine_create_assert(&bad, "funding:1", &signer).unwrap();
    match flow.challenger_evaluate(&bad, &opening, &h) {
        EvaluationResult::Invalid { l_invalid } => assert_eq!(hashlock_commit(&l_invalid), h),
        EvaluationResult::Valid => panic!("expected invalid"),
    }
}

#[test]
fn phase_c_stand_in_with_and_without_share_bundle() {
    let flow = PhaseCFlow::new();
    assert!(!flow.name().is_empty());
    let signer = random_secret_key();

    let good = valid_claim();
    let (_t, opening, h) = flow.engine_create_assert(&good, "f:0", &signer).unwrap();
    assert!(matches!(flow.challenger_evaluate(&good, &opening, &h), EvaluationResult::Valid));

    let secret = [0x42u8; 32];
    let bundle = ShareBundle::synthetic_from_adaptor_secret(&secret);
    let flow = PhaseCFlow::with_share_bundle(bundle);
    let bad = invalid_claim();
    let (_t, opening, h) = flow.engine_create_assert(&bad, "f:1", &signer).unwrap();
    match flow.challenger_evaluate(&bad, &opening, &h) {
        EvaluationResult::Invalid { l_invalid } => {
            assert_eq!(hashlock_commit(&l_invalid), h);
            let d = PhaseCFlow::build_disprove("a:0", l_invalid, "slash");
            assert_eq!(d.false_label, l_invalid);
            let t = PhaseCFlow::build_timeout("a:0", "r:0", "pk");
            assert_eq!(t.assert_outpoint, "a:0");
        }
        EvaluationResult::Valid => panic!("expected invalid"),
    }
}

#[test]
fn serialize_claim_roundtrip() {
    let c = valid_claim();
    let bytes = serialize_claim(&c);
    let back = deserialize_claim(&bytes).unwrap();
    assert_eq!(back.total_in, c.total_in);
    assert_eq!(back.total_out, c.total_out);
    assert_eq!(back.t1, c.t1);
    assert_eq!(back.h_new, c.h_new);
    assert_eq!(back, c);
    assert_eq!(deserialize_claim(&bytes[1..]), None);
}

#[test]
fn assert_witness_direct_adaptor_errors_and_carriers() {
    let claim = valid_claim();
    let claim_bytes = serialize_claim(&claim);

    // Direct
    let opening = AssertOpening::Direct(DirectSeedOpening::from_claim_bytes(3, &claim_bytes));
    let h = [0x11; 32];
    let w = AssertWitnessV1::new(claim_bytes.clone(), opening, h, None).with_ciphertext_hash([0xAB; 32]);
    assert_eq!(w.statement.instance_id, 3);
    let enc = w.encode();
    let dec = AssertWitnessV1::decode(&enc).unwrap();
    dec.check_hashlock(&h).unwrap();
    dec.check_ciphertext_hash(&[0xAB; 32]).unwrap();
    assert!(matches!(dec.check_ciphertext_hash(&[0; 32]), Err(WitnessError::CiphertextHashMismatch)));

    // Legacy without ct flag
    let mut legacy = AssertWitnessV1::new(
        claim_bytes.clone(),
        AssertOpening::Direct(DirectSeedOpening::from_claim_bytes(0, &claim_bytes)),
        h,
        None,
    )
    .encode();
    assert_eq!(legacy.pop(), Some(0));
    assert!(AssertWitnessV1::decode(&legacy).unwrap().ciphertext_hash.is_none());

    // Tampered claim
    let mut bad = AssertWitnessV1::new(
        claim_bytes.clone(),
        AssertOpening::Direct(DirectSeedOpening::from_claim_bytes(0, &claim_bytes)),
        h,
        None,
    );
    bad.claim_bytes[0] ^= 1;
    assert!(matches!(AssertWitnessV1::decode(&bad.encode()), Err(WitnessError::ClaimHashMismatch)));

    // Bad magic
    assert!(matches!(AssertWitnessV1::decode(b"XXXX"), Err(WitnessError::BadMagic)));

    // Adaptor + share bundle
    let (ao, _) = AdaptorOpening::create_ephemeral(1, &claim_bytes).unwrap();
    let bundle = ShareBundle::synthetic_from_adaptor_secret(&[9; 32]);
    let w = AssertWitnessV1::new(claim_bytes.clone(), AssertOpening::Adaptor(ao), h, Some(bundle));
    let dec = AssertWitnessV1::decode(&w.encode()).unwrap();
    assert!(dec.share_bundle.is_some());
    assert!(matches!(dec.opening, AssertOpening::Adaptor(_)));

    // OP_RETURN carrier
    let blob = w.encode();
    let mut tx = bare_tx();
    attach_op_return_output(&mut tx, &blob).unwrap();
    assert_eq!(extract_from_op_return(&tx).unwrap(), blob);

    // Multi-push OP_RETURN
    let mut big = beacon::MAGIC.to_vec();
    big.extend(std::iter::repeat(0xCDu8).take(600));
    let mut tx2 = bare_tx();
    attach_op_return_output(&mut tx2, &big).unwrap();
    assert_eq!(extract_from_op_return(&tx2).unwrap(), big);

    // Annex carrier (research helper): the annex is the last witness item.
    let mut tx3 = bare_tx();
    tx3.input[0].witness.push([0u8; 64]);
    tx3.input[0].witness.push(annex_item(&blob));
    assert_eq!(extract_from_funding_witness(&tx3).unwrap(), blob);
    assert!(extract_from_funding_witness(&bare_tx()).is_none());
}

#[test]
fn phase_b_adaptor_secret_extract_roundtrip() {
    let signer = random_secret_key();
    let t = random_secret_key();
    let msg = [0x11u8; 32];
    let adapted = create_adapted_signature(&signer, &msg, &t).unwrap();
    let recovered = complete_and_extract(&adapted).unwrap();
    assert_eq!(recovered, t);
    assert_eq!(extract_adaptor_secret(&adapted.adapted_s, &adapted.completed_s).unwrap(), t);
}

fn meta(i: u32, seed: u64) -> CiphertextMeta {
    CiphertextMeta {
        format: META_FORMAT_V1,
        instance_id: i,
        ciphertext_hash: sha2::Sha256::digest([i as u8; 8]).into(),
        hash_alg: HASH_ALG_SHA256_FILE.to_string(),
        seed,
        true_wire: 1,
        false_wire: 0,
        l_invalid: [3; 32],
        l_valid: [4; 32],
        stream_file: format!("gc_{i}.bin"),
        sidecar_file: None,
        sidecar_hash: None,
    }
}

#[test]
fn cut_and_choose_schedule_sample_fixed_validate_open() {
    let params = CutAndChooseParams { n: 4, eval_count: 1 };
    let s = sample_schedule(params).unwrap();
    validate_schedule(&s, params).unwrap();
    assert_eq!(s.eval_set.len(), 1);
    assert_eq!(s.check_set.len(), 3);

    assert!(CutAndChooseParams { n: 0, eval_count: 1 }.validate().is_err());
    assert!(CutAndChooseParams { n: 2, eval_count: 2 }.validate().is_err());

    let fixed = fixed_schedule(CutAndChooseParams::default()).unwrap();
    assert_eq!(fixed.eval_instance, 2);

    // What an honest store returns for instances 0..3.
    let metas: Vec<CiphertextMeta> = (0..3u32).map(|i| meta(i, 10 + i as u64)).collect();
    let loaded: Vec<Result<CiphertextMeta, StoreError>> = metas.iter().map(|m| Ok(m.clone())).collect();
    let commits = commits_from_store(3, &loaded).unwrap();
    let check_loaded: Vec<Result<CiphertextMeta, StoreError>> =
        fixed.check_set.iter().map(|&i| Ok(metas[i as usize].clone())).collect();
    let openings = check_openings_from_store(&fixed, &check_loaded).unwrap();
    open_check_instances(&fixed, &commits, &openings, &check_loaded).unwrap();
    let m = require_eval_committed(&fixed, &commits, Ok(metas[2].clone())).unwrap();
    assert_eq!(m.instance_id, fixed.eval_instance);

    // Opening the evaluation instance as a check instance fails.
    let mut bad_openings = openings.clone();
    bad_openings[0].instance_id = fixed.eval_instance;
    let bad_loaded: Vec<Result<CiphertextMeta, StoreError>> =
        bad_openings.iter().map(|o| Ok(metas[o.instance_id as usize].clone())).collect();
    assert!(open_check_instances(&fixed, &commits, &bad_openings, &bad_loaded).is_err());
}

#[test]
fn e2e_witness_bound_evaluate_phases_a_b_c() {
    let claim = invalid_claim();
    let claim_bytes = serialize_claim(&claim);

    // Phase A
    let flow_a = PhaseAFlow::new(ClaimMiniBackend);
    let (_t, o_a, h_a) = flow_a.engine_create_assert(&claim, "a:0");
    let wit_a = AssertWitnessV1::new(claim_bytes.clone(), AssertOpening::Direct(o_a), h_a, None);
    let rec = AssertWitnessV1::decode(&wit_a.encode()).unwrap();
    let claim_r = deserialize_claim(&rec.claim_bytes).unwrap();
    let o = match &rec.opening {
        AssertOpening::Direct(o) => o,
        _ => unreachable!(),
    };
    match flow_a.challenger_evaluate(&claim_r, o, &rec.statement.h_l_invalid) {
        EvaluationResult::Invalid { l_invalid } => assert_eq!(hashlock_commit(&l_invalid), h_a),
        _ => panic!("phase a"),
    }

    // Phase B
    let flow_b = PhaseBFlow::new(ClaimMiniBackend);
    let signer = random_secret_key();
    let (_t, o_b, h_b) = flow_b.engine_create_assert(&claim, "b:0", &signer).unwrap();
    let wit_b = AssertWitnessV1::new(claim_bytes.clone(), AssertOpening::Adaptor(o_b), h_b, None);
    let rec = AssertWitnessV1::decode(&wit_b.encode()).unwrap();
    match &rec.opening {
        AssertOpening::Adaptor(o) => match flow_b.challenger_evaluate(&claim, o, &h_b) {
            EvaluationResult::Invalid { .. } => {}
            EvaluationResult::Valid => panic!("phase b"),
        },
        _ => panic!("expected adaptor"),
    }

    // Phase C
    let bundle = ShareBundle::synthetic_from_adaptor_secret(&[7; 32]);
    let flow_c = PhaseCFlow::with_share_bundle(bundle.clone());
    let (_t, o_c, h_c) = flow_c.engine_create_assert(&claim, "c:0", &signer).unwrap();
    let wit_c = AssertWitnessV1::new(claim_bytes, AssertOpening::Adaptor(o_c), h_c, Some(bundle))
        .with_ciphertext_hash([0xCE; 32]);
    let rec = AssertWitnessV1::decode(&wit_c.encode()).unwrap();
    assert_eq!(rec.ciphertext_hash, Some([0xCE; 32]));
    match &rec.opening {
        AssertOpening::Adaptor(o) => {
            let flow = PhaseCFlow::with_share_bundle(rec.share_bundle.clone().unwrap());
            assert!(matches!(flow.challenger_evaluate(&claim, o, &h_c), EvaluationResult::Invalid { .. }));
        }
        _ => panic!("expected adaptor"),
    }
}

#[test]
fn assert_opening_as_label_opening() {
    let bytes = serialize_claim(&valid_claim());
    let d = DirectSeedOpening::from_claim_bytes(5, &bytes);
    let a = AssertOpening::Direct(d);
    assert_eq!(a.as_label_opening().instance_id(), 5);
    assert_eq!(a.as_label_opening().derive_label_material(), d.derive_label_material());
}

#[test]
fn openings_expose_label_opening_and_instance_binding() {
    let bytes = serialize_claim(&valid_claim());
    let d0 = DirectSeedOpening::from_claim_bytes(0, &bytes);
    let d1 = DirectSeedOpening::from_claim_bytes(1, &bytes);
    assert_ne!(d0.seed, d1.seed);
    assert_ne!(d0.derive_label_material(), d1.derive_label_material());
    assert_eq!(LabelOpening::instance_id(&d0), 0);
    assert_eq!(LabelOpening::public_inputs_hash(&d0), d0.public_inputs_hash);

    let a = AssertOpening::Direct(d0.clone());
    assert_eq!(a.version(), d0.version);
    assert_eq!(a.derive_label_material(), d0.derive_label_material());
}
