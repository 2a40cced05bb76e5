use beacon::backend::EvaluationResult;
use beacon::phase_a::flow::serialize_claim;
use beacon::phase_b::adaptor::AdaptorError;
use beacon::phase_b::gsv_adaptor::GsvAdaptorError;
use beacon::phase_b::opening::AdaptorOpening;
use beacon::phase_c::ciphertext_store::StoreError;
use beacon::phase_c::plus::{PhaseCPlusFlow, DEFAULT_K};
use beacon::phase_c::schedule::ScheduleError;
use beacon::witness::WitnessError;
use beacon::{hashlock_commit, ClaimMini};

fn random_secret_key() -> [u8; 32] {
    secp256k1::SecretKey::new(&mut rand::thread_rng()).secret_bytes()
}


#[test]
fn witness_error_messages() {
    assert_eq!(WitnessError::BadMagic.to_string(), "assert witness: bad magic");
    assert_eq!(WitnessError::BadOpeningTag(7).to_string(), "assert witness: bad opening tag 7");
    assert_eq!(
        WitnessError::CiphertextHashMismatch.to_string(),
        "assert witness: ciphertext_hash does not match store"
    );
}

#[test]
fn store_and_schedule_error_messages() {
    assert_eq!(
        StoreError::NotFound(12).to_string(),
        "ciphertext store: instance 12 not found"
    );
    let mut expected = [0u8; 32];
    expected[0] = 0xab;
    let e = StoreError::HashMismatch { instance_id: 3, expected, got: [0x01; 32] };
    let text = e.to_string();
    assert!(text.starts_with("ciphertext store: instance 3 hash mismatch expected=ab00"));
    assert!(text.ends_with(&format!("got={}", "01".repeat(32))));
    assert_eq!(
        StoreError::BadMeta("unknown hash_alg").to_string(),
        "ciphertext store: bad meta (unknown hash_alg)"
    );
    assert_eq!(StoreError::Io("denied".into()).to_string(), "ciphertext store io: denied");
    assert_eq!(
        ScheduleError::Store(StoreError::SidecarMissing(4)).to_string(),
        "cut-and-choose store: ciphertext store: sidecar missing for instance 4"
    );
    assert_eq!(
        ScheduleError::EvalInCheckSet(2).to_string(),
        "cut-and-choose: eval instance 2 must not be opened as check"
    );
    assert_eq!(
        ScheduleError::BadParams("n == 0").to_string(),
        "cut-and-choose params: n == 0"
    );
}

#[test]
fn adaptor_error_messages() {
    assert_eq!(AdaptorError::BadSecret.to_string(), "invalid secret scalar");
    assert_eq!(
        AdaptorError::InvalidSignature.to_string(),
        "completed BIP340 signature failed verification"
    );
    assert_eq!(
        GsvAdaptorError::BadSignature("truncated").to_string(),
        "gsv adaptor: truncated"
    );
    assert_eq!(GsvAdaptorError::BadPoint.to_string(), "gsv adaptor: bad secp256k1 point");
}

fn claim() -> ClaimMini {
    ClaimMini::make_valid([1; 32], 100_000, 40_000, [10; 32], [11; 32], [12; 32], [13; 32])
}

#[test]
fn phase_c_plus_configuration() {
    let f = PhaseCPlusFlow::new();
    assert_eq!(f.k, DEFAULT_K);
    assert!(f.share_bundle.is_none());
    assert_eq!(f.clone().with_k(9).k, 9);
    assert_eq!(f.name(), "phase-c+/garbled-groth16");
}

#[test]
fn phase_c_plus_challenger_checks() {
    let flow = PhaseCPlusFlow::new();
    let c = claim();
    let signer = random_secret_key();
    let opening = AdaptorOpening::create(0, &serialize_claim(&c), &signer).unwrap();
    let committed = hashlock_commit(&[5; 32]);

    // Bundle commits to the Assert hashlock: its evaluation stands.
    assert_eq!(
        flow.challenger_evaluate(&c, &opening, committed, Ok(EvaluationResult::Valid), &committed),
        Ok(EvaluationResult::Valid)
    );
    assert_eq!(
        flow.challenger_evaluate(
            &c,
            &opening,
            committed,
            Ok(EvaluationResult::Invalid { l_invalid: [5; 32] }),
            &committed
        ),
        Ok(EvaluationResult::Invalid { l_invalid: [5; 32] })
    );
    // Evaluation failures are passed on.
    assert_eq!(
        flow.challenger_evaluate(&c, &opening, committed, Err("eval failed".into()), &committed),
        Err("eval failed".to_string())
    );
    // Wrong bundle commitment.
    assert_eq!(
        flow.challenger_evaluate(&c, &opening, [0; 32], Ok(EvaluationResult::Valid), &committed),
        Err("bundle L_invalid does not match Assert hashlock".to_string())
    );
    // Opening bound to another claim.
    let mut other = c;
    other.total_in += 1;
    assert_eq!(
        flow.challenger_evaluate(&other, &opening, committed, Ok(EvaluationResult::Valid), &committed),
        Err("adaptor opening does not bind claim".to_string())
    );
    // Opening that does not extract.
    let mut broken = opening;
    broken.completed_s[0] ^= 0xff;
    assert!(flow
        .challenger_evaluate(&c, &broken, committed, Ok(EvaluationResult::Valid), &committed)
        .is_err());
}

#[test]
fn store_errors_convert_into_schedule_errors() {
    let e: ScheduleError = StoreError::NotFound(1).into();
    assert_eq!(e, ScheduleError::Store(StoreError::NotFound(1)));
}
