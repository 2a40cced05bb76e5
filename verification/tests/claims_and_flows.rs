use beacon::backend::gsv;
use beacon::backend::EvaluationResult;
use beacon::phase_a::flow::serialize_claim;
use beacon::phase_b::adaptor::{
    complete_and_extract, create_adapted_signature, extract_adaptor_secret,
};
use beacon::phase_b::flow::PhaseBFlow;
use beacon::phase_b::opening::AdaptorOpening;
use beacon::phase_c::evaluate::{commit_l_invalid, evaluate_claim};
use beacon::phase_c::flow::PhaseCFlow;
use beacon::phase_c::labels::{expand_label_bytes, seed_from_label_material};
use beacon::phase_c::reconstruct::{reconstruct_label_seed, ShareBundle};
use beacon::tx_templates::{AssertTemplate, DEFAULT_DISPUTE_WINDOW};
use beacon::{
    hashlock_commit, CircuitBackend, ClaimMini, ClaimMiniBackend, DirectSeedOpening,
    GarbledSnarkBackend, OutputWire, PhaseAFlow,
};

fn random_secret_key() -> [u8; 32] {
    secp256k1::SecretKey::new(&mut rand::thread_rng()).secret_bytes()
}


fn dummy32(seed: u8) -> [u8; 32] {
    let mut a = [0u8; 32];
    a[0] = seed;
    a
}

fn sample_claim() -> ClaimMini {
    ClaimMini::make_valid(
        dummy32(1),
        100_000,
        40_000,
        dummy32(10),
        dummy32(11),
        dummy32(12),
        dummy32(13),
    )
}

fn filled_claim(valid: bool, bad_out: u64) -> ClaimMini {
    let mut c = ClaimMini::make_valid([1; 32], 100_000, 40_000, [10; 32], [11; 32], [12; 32], [13; 32]);
    if !valid {
        c.total_out = bad_out;
    }
    c
}

// ---------------------------------------------------------------------------
// Claim Mini
// ---------------------------------------------------------------------------

#[test]
fn valid_claim_passes() {
    let claim = ClaimMini::make_valid(
        dummy32(1),
        100_000,
        50_000,
        dummy32(10),
        dummy32(11),
        dummy32(12),
        dummy32(13),
    );
    assert!(claim.verify());
    let wire = OutputWire::from_claim(&claim);
    assert!(wire.value);
    assert!(wire.fraud_secret().is_none());
}

#[test]
fn inflation_is_rejected() {
    let mut claim = ClaimMini::make_valid(
        dummy32(1),
        100_000,
        50_000,
        dummy32(10),
        dummy32(11),
        dummy32(12),
        dummy32(13),
    );
    claim.total_out = 200_000;
    assert!(!claim.verify());
    let wire = OutputWire::from_claim(&claim);
    assert!(!wire.value);
    assert!(wire.fraud_secret().is_some());
}

#[test]
fn wrong_root_is_rejected() {
    let mut claim = ClaimMini::make_valid(
        dummy32(1),
        100_000,
        50_000,
        dummy32(10),
        dummy32(11),
        dummy32(12),
        dummy32(13),
    );
    claim.h_new = dummy32(0xFF);
    assert!(!claim.verify());
    let wire = OutputWire::from_claim(&claim);
    assert!(wire.fraud_secret().is_some());
}

#[test]
fn equal_totals_are_accepted_and_root_is_recomputed() {
    let claim = ClaimMini::make_valid(dummy32(3), 7, 7, dummy32(4), dummy32(5), dummy32(6), dummy32(7));
    assert!(claim.verify());
    assert_eq!(claim.h_new, claim.compute_root());
    // The root is the hash of the preimage bytes.
    assert_eq!(claim.preimage().len(), 5 * 32);
}

#[test]
fn fraud_secret_is_the_false_label_placeholder() {
    let mut claim = sample_claim();
    claim.total_out = claim.total_in + 1;
    let wire = OutputWire::from_claim(&claim);
    assert_eq!(wire.fraud_secret(), Some(wire.false_label_placeholder));
}

#[test]
fn serialize_claim_layout() {
    let claim = sample_claim();
    let bytes = serialize_claim(&claim);
    assert_eq!(bytes.len(), 208);
    assert_eq!(&bytes[0..32], &claim.h_old);
    assert_eq!(&bytes[32..64], &claim.h_new);
    assert_eq!(&bytes[64..72], &claim.total_in.to_le_bytes());
    assert_eq!(&bytes[72..80], &claim.total_out.to_le_bytes());
    assert_eq!(&bytes[80..112], &claim.t1);
    assert_eq!(&bytes[176..208], &claim.t4);
}

// ---------------------------------------------------------------------------
// Phase A
// ---------------------------------------------------------------------------

#[test]
fn seed_is_deterministic() {
    let claim = b"dummy claim data";
    let o1 = DirectSeedOpening::from_claim_bytes(0, claim);
    let o2 = DirectSeedOpening::from_claim_bytes(0, claim);
    assert_eq!(o1.seed, o2.seed);
    assert_eq!(o1.public_inputs_hash, o2.public_inputs_hash);
}

#[test]
fn direct_seed_differs_per_claim_and_labels_differ_from_seed() {
    let a = DirectSeedOpening::from_claim_bytes(0, b"a");
    let b = DirectSeedOpening::from_claim_bytes(0, b"b");
    assert_ne!(a.seed, b.seed);
    assert_eq!(a.version, DirectSeedOpening::VERSION_PHASE_A);
    assert_ne!(a.derive_label_material(), a.seed);
}

#[test]
fn happy_path_claim_mini() {
    let flow = PhaseAFlow::new(ClaimMiniBackend);
    let claim = sample_claim();
    let (_tmpl, opening, h) = flow.engine_create_assert(&claim, "txid:0");
    assert!(matches!(
        flow.challenger_evaluate(&claim, &opening, &h),
        EvaluationResult::Valid
    ));
    let _timeout =
        PhaseAFlow::<ClaimMiniBackend>::build_timeout("assert_txid:0", "reserve:0", "engine_pk");
}

#[test]
fn unhappy_path_claim_mini() {
    let flow = PhaseAFlow::new(ClaimMiniBackend);
    let mut claim = sample_claim();
    claim.total_out = 250_000;
    let (_tmpl, opening, h) = flow.engine_create_assert(&claim, "txid:0");
    match flow.challenger_evaluate(&claim, &opening, &h) {
        EvaluationResult::Invalid { l_invalid } => {
            let d = PhaseAFlow::<ClaimMiniBackend>::build_disprove(
                "assert_txid:0",
                l_invalid,
                "challenger",
            );
            assert_eq!(d.false_label, l_invalid);
            assert_eq!(hashlock_commit(&l_invalid), h);
        }
        EvaluationResult::Valid => panic!("should be invalid"),
    }
}

#[test]
fn happy_and_unhappy_gsv_stand_in() {
    let flow = PhaseAFlow::new(GarbledSnarkBackend);
    let claim = sample_claim();
    let (_tmpl, opening, h) = flow.engine_create_assert(&claim, "txid:0");
    assert!(matches!(
        flow.challenger_evaluate(&claim, &opening, &h),
        EvaluationResult::Valid
    ));

    let mut bad = claim;
    bad.total_out = 250_000;
    let (_tmpl, opening, h) = flow.engine_create_assert(&bad, "txid:0");
    match flow.challenger_evaluate(&bad, &opening, &h) {
        EvaluationResult::Invalid { l_invalid } => {
            assert_eq!(hashlock_commit(&l_invalid), h);
            let mini = PhaseAFlow::new(ClaimMiniBackend);
            let (_t, _o, h_mini) = mini.engine_create_assert(&bad, "txid:0");
            assert_ne!(h, h_mini);
        }
        EvaluationResult::Valid => panic!("should be invalid"),
    }
}

#[test]
fn checked_evaluate_reports_a_foreign_hashlock() {
    let flow = PhaseAFlow::new(ClaimMiniBackend);
    let mut bad = sample_claim();
    bad.total_out = 250_000;
    let (_t, opening, h) = flow.engine_create_assert(&bad, "txid:0");
    assert!(flow.checked_challenger_evaluate(&bad, &opening, &h).is_some());
    assert_eq!(flow.checked_challenger_evaluate(&bad, &opening, &[0u8; 32]), None);
    // A valid claim never aborts, whatever hashlock was posted.
    let good = sample_claim();
    assert_eq!(
        flow.checked_challenger_evaluate(&good, &opening, &[0u8; 32]),
        Some(EvaluationResult::Valid)
    );
}

#[test]
fn default_flow_matches_explicit_backend() {
    let claim = sample_claim();
    let (t1, o1, h1) = PhaseAFlow::<ClaimMiniBackend>::engine_create_assert_default(&claim, "f:1");
    let (t2, o2, h2) = PhaseAFlow::new(ClaimMiniBackend).engine_create_assert(&claim, "f:1");
    assert_eq!(h1, h2);
    assert_eq!(o1, o2);
    assert_eq!(t1.funding_outpoint, t2.funding_outpoint);
    assert_eq!(t1.dispute_window, DEFAULT_DISPUTE_WINDOW);
    assert_eq!(
        PhaseAFlow::<ClaimMiniBackend>::challenger_evaluate_default(&claim, &o1, &h1),
        EvaluationResult::Valid
    );
}

#[test]
fn gsv_stand_in_label_is_its_own_hash() {
    let mut bad = sample_claim();
    bad.total_out = 250_000;
    let opening = DirectSeedOpening::from_claim_bytes(0, &serialize_claim(&bad));
    let h = ClaimMiniBackend.commit_l_invalid(&bad);
    match ClaimMiniBackend.evaluate(&bad, &opening) {
        EvaluationResult::Invalid { l_invalid } => assert_eq!(hashlock_commit(&l_invalid), h),
        EvaluationResult::Valid => panic!("expected invalid"),
    }
    let hg = GarbledSnarkBackend.commit_l_invalid(&bad);
    assert_eq!(hg, hashlock_commit(&gsv::l_invalid(&bad)));
    assert!(!GarbledSnarkBackend::is_linked());
    assert_eq!(ClaimMiniBackend.name(), "claim-mini");
}

// ---------------------------------------------------------------------------
// Templates
// ---------------------------------------------------------------------------

#[test]
fn assert_template_builds() {
    let claim = ClaimMini::make_valid([1u8; 32], 100_000, 40_000, [10u8; 32], [11u8; 32], [12u8; 32], [13u8; 32]);
    let tmpl = AssertTemplate {
        funding_outpoint: "abc123:0".into(),
        claim,
        hash_of_false_label: [0x42; 32],
        dispute_window: DEFAULT_DISPUTE_WINDOW,
    };
    let desc = tmpl.connector_script_description();
    assert!(desc.contains("Disprove"));
    assert!(desc.contains("Timeout"));
}

#[test]
fn connector_description_names_hashlock_and_window() {
    let tmpl = AssertTemplate {
        funding_outpoint: "x:0".into(),
        claim: sample_claim(),
        hash_of_false_label: [0xab; 32],
        dispute_window: 7,
    };
    let desc = tmpl.connector_script_description();
    assert!(desc.contains("171"), "hash bytes are listed in decimal: {desc}");
    assert!(desc.contains("<7> OP_CSV"), "{desc}");
}

// ---------------------------------------------------------------------------
// Phase B
// ---------------------------------------------------------------------------

#[test]
fn extract_recovers_adaptor_secret() {
    let signer = random_secret_key();
    let t = random_secret_key();
    let msg = [7u8; 32];
    let adapted = create_adapted_signature(&signer, &msg, &t).unwrap();
    let recovered = complete_and_extract(&adapted).unwrap();
    assert_eq!(recovered, t);
}

#[test]
fn extract_adaptor_secret_is_scalar_difference() {
    let mut adapted = [0u8; 32];
    adapted[31] = 5;
    let mut completed = [0u8; 32];
    completed[31] = 12;
    let t = extract_adaptor_secret(&adapted, &completed).unwrap();
    let mut seven = [0u8; 32];
    seven[31] = 7;
    assert_eq!(t, seven);
}

#[test]
fn opening_extracts_deterministic_labels() {
    let claim = b"phase-b-claim";
    let (o1, _) = AdaptorOpening::create_ephemeral(0, claim).unwrap();
    let labels = o1.derive_label_material().unwrap();
    assert_eq!(labels, o1.derive_label_material().unwrap());
    assert_eq!(o1.version, AdaptorOpening::VERSION_PHASE_B);
}

#[test]
fn tampered_completed_s_fails() {
    let (mut o, _) = AdaptorOpening::create_ephemeral(0, b"x").unwrap();
    o.completed_s[0] ^= 0xff;
    assert!(o.extract_secret().is_err());
}

#[test]
fn ephemeral_opening_reveals_its_secret() {
    let (o, signer) = AdaptorOpening::create_ephemeral(3, b"claim").unwrap();
    let t = o.extract_secret().unwrap();
    assert_ne!(t, signer);
    assert_eq!(o.instance_id, 3);
    // The same signer and adaptor secret give the same opening.
    let again = AdaptorOpening::create_with_secret(3, b"claim", &signer, &t).unwrap();
    assert_eq!(again.extract_secret().unwrap(), t);
    assert_eq!(again.completed_s, o.completed_s);
}

#[test]
fn happy_path_adaptor() {
    let flow = PhaseBFlow::new(ClaimMiniBackend);
    let signer = random_secret_key();
    let claim = filled_claim(true, 0);
    let (_tmpl, opening, h) = flow.engine_create_assert(&claim, "txid:0", &signer).unwrap();
    assert!(matches!(
        flow.challenger_evaluate(&claim, &opening, &h),
        EvaluationResult::Valid
    ));
}

#[test]
fn unhappy_path_adaptor() {
    let flow = PhaseBFlow::new(ClaimMiniBackend);
    let signer = random_secret_key();
    let claim = filled_claim(false, 250_000);
    let (_tmpl, opening, h) = flow.engine_create_assert(&claim, "txid:0", &signer).unwrap();
    match flow.challenger_evaluate(&claim, &opening, &h) {
        EvaluationResult::Invalid { l_invalid } => {
            assert_eq!(hashlock_commit(&l_invalid), h);
        }
        EvaluationResult::Valid => panic!("should be invalid"),
    }
}

// ---------------------------------------------------------------------------
// Phase C
// ---------------------------------------------------------------------------

#[test]
fn happy_and_unhappy_match_hashlock() {
    let material = DirectSeedOpening::from_claim_bytes(0, b"phase-c").derive_label_material();
    let good = filled_claim(true, 0);
    let _h = commit_l_invalid(&good, &material);
    assert!(matches!(evaluate_claim(&good, &material), EvaluationResult::Valid));

    let bad = filled_claim(false, 250_000);
    let h_bad = commit_l_invalid(&bad, &material);
    match evaluate_claim(&bad, &material) {
        EvaluationResult::Invalid { l_invalid } => {
            assert_eq!(hashlock_commit(&l_invalid), h_bad);
        }
        EvaluationResult::Valid => panic!("expected invalid"),
    }
}

#[test]
fn happy_path() {
    let flow = PhaseCFlow::new();
    let signer = random_secret_key();
    let claim = filled_claim(true, 0);
    let (_t, opening, h) = flow.engine_create_assert(&claim, "txid:0", &signer).unwrap();
    assert!(matches!(
        flow.challenger_evaluate(&claim, &opening, &h),
        EvaluationResult::Valid
    ));
}

#[test]
fn unhappy_path_with_bundle() {
    let secret_placeholder = [0u8; 32];
    let bundle = ShareBundle::synthetic_from_adaptor_secret(&secret_placeholder);
    let flow = PhaseCFlow::with_share_bundle(bundle);
    let signer = random_secret_key();
    let claim = filled_claim(false, 999_999);
    let (_t, opening, h) = flow.engine_create_assert(&claim, "txid:0", &signer).unwrap();
    match flow.challenger_evaluate(&claim, &opening, &h) {
        EvaluationResult::Invalid { l_invalid } => {
            assert_eq!(hashlock_commit(&l_invalid), h);
        }
        EvaluationResult::Valid => panic!("expected invalid"),
    }
}

#[test]
fn phase_c_name_is_stand_in() {
    assert_eq!(PhaseCFlow::new().name(), "phase-c/stand-in");
}

#[test]
fn expand_is_stable() {
    assert_eq!(expand_label_bytes(b"abc"), expand_label_bytes(b"abc"));
    assert_ne!(expand_label_bytes(b"a"), expand_label_bytes(b"b"));
}

#[test]
fn garble_seed_is_first_eight_bytes_le_of_a_hash() {
    let m = [5u8; 32];
    assert_eq!(seed_from_label_material(&m), seed_from_label_material(&m));
    assert_ne!(seed_from_label_material(&m), seed_from_label_material(&[6u8; 32]));
}

#[test]
fn synthetic_bundle_reconstructs() {
    let secret = [9u8; 32];
    let bundle = ShareBundle::synthetic_from_adaptor_secret(&secret);
    let a = reconstruct_label_seed(Some(&bundle), &secret);
    let b = reconstruct_label_seed(Some(&bundle), &secret);
    assert_eq!(a, b);
    assert_ne!(a, secret);
}

#[test]
fn no_bundle_passes_share_through() {
    let secret = [4u8; 32];
    assert_eq!(reconstruct_label_seed(None, &secret), secret);
    let bundle = ShareBundle::synthetic_from_adaptor_secret(&secret);
    assert_eq!(bundle.n, 3);
    assert_eq!(bundle.threshold, 2);
    assert_eq!(bundle.adaptor_index, 2);
    assert_eq!(bundle.check_shares.len(), 2);
}
