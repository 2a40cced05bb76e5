use beacon::carrier::{
    annex_item, attach_op_return_output, extract_from_annex, extract_from_funding_witness,
    extract_from_op_return, extract_from_op_return_scripts, op_return_script,
};
use beacon::opening::{AssertOpening, LabelOpening};
use beacon::phase_a::flow::serialize_claim;
use beacon::phase_b::opening::AdaptorOpening;
use beacon::phase_c::ciphertext_store::{
    check_loaded_meta, check_sidecar_hash, check_stream_hash, listed_sidecar, meta_file_name,
    sidecar_file_name, stream_file_name, stream_hash_alg, CiphertextMeta, HashAlg, StoreError,
    HASH_ALG_BLAKE3_ACCUM, HASH_ALG_SHA256_FILE, META_FORMAT_V1,
};
use beacon::phase_c::reconstruct::ShareBundle;
use beacon::phase_c::schedule::{
    check_openings_from_store, commits_from_store, fixed_schedule, open_check_instances,
    require_eval_committed, sample_schedule, schedule_from_draws, validate_schedule, CheckOpening,
    CutAndChooseParams, CutAndChooseSchedule, InstanceCommit, ScheduleError,
};
use beacon::witness::{AssertWitnessV1, WitnessError, MAGIC};
use bitcoin::{absolute, transaction::Version, OutPoint, Sequence, Transaction, TxIn, TxOut};
use beacon::{ClaimMini, DirectSeedOpening};

fn sample_claim_bytes() -> Vec<u8> {
    serialize_claim(&ClaimMini::make_valid([1; 32], 100, 40, [2; 32], [3; 32], [4; 32], [5; 32]))
}

fn direct(claim_bytes: &[u8]) -> AssertOpening {
    AssertOpening::Direct(DirectSeedOpening::from_claim_bytes(0, claim_bytes))
}

// ---------------------------------------------------------------------------
// Assert witness
// ---------------------------------------------------------------------------

#[test]
fn roundtrip_direct() {
    let claim_bytes = sample_claim_bytes();
    let opening = direct(&claim_bytes);
    let h = [0x11; 32];
    let w = AssertWitnessV1::new(claim_bytes, opening, h, None);
    let enc = w.encode();
    let dec = AssertWitnessV1::decode(&enc).unwrap();
    assert_eq!(dec.statement.h_l_invalid, h);
    assert!(matches!(dec.opening, AssertOpening::Direct(_)));
    dec.check_hashlock(&h).unwrap();
}

#[test]
fn roundtrip_adaptor_with_bundle() {
    let claim_bytes = sample_claim_bytes();
    let (opening, _) = AdaptorOpening::create_ephemeral(0, &claim_bytes).unwrap();
    let bundle = ShareBundle::synthetic_from_adaptor_secret(&[9; 32]);
    let h = [0x22; 32];
    let w = AssertWitnessV1::new(claim_bytes, AssertOpening::Adaptor(opening), h, Some(bundle));
    let dec = AssertWitnessV1::decode(&w.encode()).unwrap();
    assert!(dec.share_bundle.is_some());
    assert!(matches!(dec.opening, AssertOpening::Adaptor(_)));
    assert_eq!(dec, w);
}

#[test]
fn tampered_claim_fails() {
    let claim_bytes = sample_claim_bytes();
    let opening = direct(&claim_bytes);
    let mut w = AssertWitnessV1::new(claim_bytes, opening, [0; 32], None);
    w.claim_bytes[0] ^= 1;
    assert!(matches!(
        AssertWitnessV1::decode(&w.encode()),
        Err(WitnessError::ClaimHashMismatch)
    ));
}

#[test]
fn ciphertext_hash_roundtrip_and_check() {
    let claim_bytes = sample_claim_bytes();
    let opening = direct(&claim_bytes);
    let ct = [0xAB; 32];
    let w = AssertWitnessV1::new(claim_bytes, opening, [0; 32], None).with_ciphertext_hash(ct);
    let dec = AssertWitnessV1::decode(&w.encode()).unwrap();
    assert_eq!(dec.ciphertext_hash, Some(ct));
    dec.check_ciphertext_hash(&ct).unwrap();
    assert!(matches!(
        dec.check_ciphertext_hash(&[0; 32]),
        Err(WitnessError::CiphertextHashMismatch)
    ));
}

#[test]
fn legacy_blob_without_ct_flag_decodes() {
    let claim_bytes = sample_claim_bytes();
    let opening = direct(&claim_bytes);
    let mut enc = AssertWitnessV1::new(claim_bytes, opening, [0; 32], None).encode();
    assert_eq!(enc.pop(), Some(0));
    let dec = AssertWitnessV1::decode(&enc).unwrap();
    assert!(dec.ciphertext_hash.is_none());
}

#[test]
fn witness_error_variants() {
    let claim_bytes = sample_claim_bytes();
    let enc = AssertWitnessV1::new(claim_bytes.clone(), direct(&claim_bytes), [0; 32], None).encode();
    // Bad magic.
    let mut bad = enc.clone();
    bad[0] ^= 0xff;
    assert_eq!(AssertWitnessV1::decode(&bad), Err(WitnessError::BadMagic));
    // Unsupported format byte.
    let mut bad = enc.clone();
    bad[4] = 9;
    assert_eq!(AssertWitnessV1::decode(&bad), Err(WitnessError::BadFormat));
    // Truncated.
    assert_eq!(AssertWitnessV1::decode(&enc[..10]), Err(WitnessError::Truncated));
    assert_eq!(AssertWitnessV1::decode(&enc[..2]), Err(WitnessError::Truncated));
    // Trailing byte after the ciphertext flag.
    let mut bad = enc.clone();
    bad.push(0);
    assert_eq!(AssertWitnessV1::decode(&bad), Err(WitnessError::BadFormat));
    // Hashlock check.
    let w = AssertWitnessV1::decode(&enc).unwrap();
    assert_eq!(w.check_hashlock(&[1; 32]), Err(WitnessError::HashlockMismatch));
    assert_eq!(w.validate_opening(), Ok(()));
}

#[test]
fn opening_mismatch_and_bad_tag() {
    let claim_bytes = sample_claim_bytes();
    let mut o = DirectSeedOpening::from_claim_bytes(0, &claim_bytes);
    o.instance_id = 5;
    let mut w = AssertWitnessV1::new(claim_bytes.clone(), AssertOpening::Direct(o), [0; 32], None);
    // `new` takes the statement's instance from the opening; break the match.
    w.statement.instance_id = 6;
    assert_eq!(w.validate_opening(), Err(WitnessError::OpeningMismatch));
    assert_eq!(AssertWitnessV1::decode(&w.encode()), Err(WitnessError::OpeningMismatch));

    let good = AssertWitnessV1::new(claim_bytes.clone(), direct(&claim_bytes), [0; 32], None).encode();
    // The opening tag sits right after the statement and the claim bytes.
    let tag_pos = 110 + claim_bytes.len();
    let mut bad = good.clone();
    assert_eq!(bad[tag_pos], 1);
    bad[tag_pos] = 7;
    assert_eq!(AssertWitnessV1::decode(&bad), Err(WitnessError::BadOpeningTag(7)));
}

#[test]
fn label_opening_trait_exposes_instance_and_version() {
    let claim_bytes = sample_claim_bytes();
    let d = DirectSeedOpening::from_claim_bytes(4, &claim_bytes);
    let o = AssertOpening::Direct(d);
    assert_eq!(o.instance_id(), 4);
    assert_eq!(o.version(), 1);
    assert_eq!(LabelOpening::derive_label_material(&o), d.derive_label_material());
}

// ---------------------------------------------------------------------------
// Carriers
// ---------------------------------------------------------------------------

fn bare_tx() -> bitcoin::Transaction {
    Transaction {
        version: Version::TWO,
        lock_time: absolute::LockTime::ZERO,
        input: vec![TxIn {
            previous_output: OutPoint::null(),
            script_sig: bitcoin::ScriptBuf::new(),
            sequence: Sequence::ENABLE_RBF_NO_LOCKTIME,
            witness: bitcoin::Witness::new(),
        }],
        output: vec![TxOut {
            value: bitcoin::Amount::from_sat(1000),
            script_pubkey: bitcoin::ScriptBuf::new(),
        }],
    }
}

#[test]
fn op_return_roundtrip() {
    let claim_bytes = sample_claim_bytes();
    let opening = direct(&claim_bytes);
    let blob = AssertWitnessV1::new(claim_bytes, opening, [0x33; 32], None).encode();
    let mut tx = bare_tx();
    attach_op_return_output(&mut tx, &blob).unwrap();
    assert_eq!(extract_from_op_return(&tx).unwrap(), blob);
}

#[test]
fn op_return_multi_push_roundtrip() {
    let mut blob = MAGIC.to_vec();
    blob.extend(std::iter::repeat(0xABu8).take(600));
    let mut tx = bare_tx();
    attach_op_return_output(&mut tx, &blob).unwrap();
    assert_eq!(extract_from_op_return(&tx).unwrap(), blob);
}

#[test]
fn op_return_script_bytes_are_chunked_pushes() {
    let s = op_return_script(&[1, 2, 3]).unwrap();
    assert_eq!(s, vec![0x6a, 3, 1, 2, 3]);
    let long = vec![7u8; 600];
    let s = op_return_script(&long).unwrap();
    // OP_RETURN, PUSHDATA2 520, data, PUSHDATA1 80, data
    assert_eq!(s[0], 0x6a);
    assert_eq!(&s[1..4], &[0x4d, 0x08, 0x02]);
    assert_eq!(s[4 + 520], 0x4c);
    assert_eq!(s[5 + 520], 80);
    assert_eq!(s.len(), 1 + 3 + 520 + 2 + 80);
}

#[test]
fn op_return_without_magic_is_ignored() {
    let mut tx = bare_tx();
    attach_op_return_output(&mut tx, b"not a witness").unwrap();
    assert_eq!(extract_from_op_return(&tx), None);
    let mut blob = MAGIC.to_vec();
    blob.extend_from_slice(b"xyz");
    let scripts = vec![vec![0x51u8], op_return_script(&blob).unwrap()];
    assert_eq!(extract_from_op_return_scripts(&scripts), Some(blob));
}

#[test]
fn annex_roundtrip_and_absence() {
    let mut blob = MAGIC.to_vec();
    blob.extend_from_slice(&[1, 2, 3]);
    let item = annex_item(&blob);
    assert_eq!(item[0], 0x50);
    let items = vec![vec![0u8; 64], item];
    assert_eq!(extract_from_annex(&items), Some(blob.clone()));
    // A single item is never an annex.
    assert_eq!(extract_from_annex(&vec![annex_item(&blob)]), None);
    // The funding witness of a bare transaction is empty.
    assert_eq!(extract_from_funding_witness(&bare_tx()), None);
    let mut tx = bare_tx();
    tx.input[0].witness.push(vec![0u8; 64]);
    tx.input[0].witness.push(annex_item(&blob));
    assert_eq!(extract_from_funding_witness(&tx), Some(blob));
}

// ---------------------------------------------------------------------------
// Ciphertext store decisions
// ---------------------------------------------------------------------------

fn meta(id: u32, hash: [u8; 32], seed: u64) -> CiphertextMeta {
    CiphertextMeta {
        format: META_FORMAT_V1,
        instance_id: id,
        ciphertext_hash: hash,
        hash_alg: HASH_ALG_SHA256_FILE.to_string(),
        seed,
        true_wire: 1,
        false_wire: 0,
        l_invalid: [0x11; 32],
        l_valid: [0x22; 32],
        stream_file: stream_file_name(id),
        sidecar_file: None,
        sidecar_hash: None,
    }
}

#[test]
fn store_file_names() {
    assert_eq!(stream_file_name(0), "gc_0.bin");
    assert_eq!(meta_file_name(12), "gc_12.meta.json");
    assert_eq!(sidecar_file_name(305), "gc_305.eval.bin");
}

#[test]
fn store_meta_checks() {
    let m = meta(2, [1; 32], 7);
    assert_eq!(check_loaded_meta(m.clone(), 2), Ok(m.clone()));
    assert_eq!(
        check_loaded_meta(m.clone(), 3),
        Err(StoreError::BadMeta("instance_id mismatch"))
    );
    let mut old = m.clone();
    old.format = 2;
    assert_eq!(check_loaded_meta(old, 2), Err(StoreError::BadMeta("unsupported format")));
    assert_eq!(stream_hash_alg(&m), Ok(HashAlg::Sha256File));
    let mut b = m.clone();
    b.hash_alg = HASH_ALG_BLAKE3_ACCUM.to_string();
    assert_eq!(
        stream_hash_alg(&b),
        Err(StoreError::BadMeta("blake3-accum requires the gsv feature"))
    );
    b.hash_alg = "md5".to_string();
    assert_eq!(stream_hash_alg(&b), Err(StoreError::BadMeta("unknown hash_alg")));
    assert_eq!(check_stream_hash(m.clone(), 2, [1; 32]), Ok(m.clone()));
    assert_eq!(
        check_stream_hash(m.clone(), 2, [9; 32]),
        Err(StoreError::HashMismatch { instance_id: 2, expected: [1; 32], got: [9; 32] })
    );
    assert_eq!(listed_sidecar(&m), Err(StoreError::SidecarMissing(2)));
    let mut s = m.clone();
    s.sidecar_file = Some(sidecar_file_name(2));
    s.sidecar_hash = Some([5; 32]);
    assert_eq!(listed_sidecar(&s), Ok(("gc_2.eval.bin".to_string(), [5; 32])));
    assert_eq!(check_sidecar_hash(2, [5; 32], [5; 32]), Ok(()));
    assert_eq!(
        check_sidecar_hash(2, [5; 32], [6; 32]),
        Err(StoreError::SidecarHashMismatch { instance_id: 2, expected: [5; 32], got: [6; 32] })
    );
}

// ---------------------------------------------------------------------------
// Cut-and-choose schedule
// ---------------------------------------------------------------------------

#[test]
fn sample_is_valid_partition() {
    let params = CutAndChooseParams { n: 5, eval_count: 2 };
    let s = sample_schedule(params).unwrap();
    validate_schedule(&s, params).unwrap();
    assert_eq!(s.eval_set.len(), 2);
    assert_eq!(s.check_set.len(), 3);
}

#[test]
fn params_are_validated() {
    assert!(CutAndChooseParams { n: 0, eval_count: 0 }.validate().is_err());
    assert!(CutAndChooseParams { n: 3, eval_count: 0 }.validate().is_err());
    assert!(CutAndChooseParams { n: 3, eval_count: 3 }.validate().is_err());
    assert!(CutAndChooseParams::default().validate().is_ok());
    assert!(matches!(
        sample_schedule(CutAndChooseParams { n: 2, eval_count: 2 }),
        Err(ScheduleError::BadParams(_))
    ));
}

#[test]
fn schedule_from_draws_follows_fisher_yates() {
    // n = 4: swaps (3, 0), (2, 2), (1, 0) turn [0,1,2,3] into [1,3,2,0].
    let params = CutAndChooseParams { n: 4, eval_count: 2 };
    let s = schedule_from_draws(params, &vec![0, 2, 0]).unwrap();
    assert_eq!(s.eval_set, vec![1, 3]);
    assert_eq!(s.check_set, vec![0, 2]);
    assert_eq!(s.eval_instance, 1);
    // Identity draws keep the order.
    let s = schedule_from_draws(params, &vec![3, 2, 1]).unwrap();
    assert_eq!(s.eval_set, vec![0, 1]);
    assert_eq!(s.check_set, vec![2, 3]);
}

#[test]
fn validate_schedule_rejections() {
    let params = CutAndChooseParams { n: 3, eval_count: 1 };
    let good = fixed_schedule(params).unwrap();
    let mut s = good.clone();
    s.n = 4;
    assert_eq!(validate_schedule(&s, params), Err(ScheduleError::BadSchedule("n mismatch")));
    let mut s = good.clone();
    s.eval_set = vec![1, 2];
    assert_eq!(validate_schedule(&s, params), Err(ScheduleError::BadSchedule("eval_set size")));
    let mut s = good.clone();
    s.check_set = vec![0];
    assert_eq!(validate_schedule(&s, params), Err(ScheduleError::BadSchedule("check_set size")));
    let mut s = good.clone();
    s.eval_instance = 0;
    assert_eq!(validate_schedule(&s, params), Err(ScheduleError::BadSchedule("eval_instance ∉ E")));
    let s = CutAndChooseSchedule { n: 3, check_set: vec![0, 0], eval_set: vec![2], eval_instance: 2 };
    assert_eq!(
        validate_schedule(&s, params),
        Err(ScheduleError::BadSchedule("sets not a partition of 0..n"))
    );
}

#[test]
fn open_check_and_require_eval() {
    let params = CutAndChooseParams::default();
    let schedule = fixed_schedule(params).unwrap();
    assert_eq!(schedule.eval_instance, 2);
    assert_eq!(schedule.check_set, vec![0, 1]);

    let metas: Vec<CiphertextMeta> = (0..3u32).map(|i| meta(i, [i as u8 + 1; 32], 100 + i as u64)).collect();
    let loaded: Vec<Result<CiphertextMeta, StoreError>> = metas.iter().map(|m| Ok(m.clone())).collect();
    let commits = commits_from_store(3, &loaded).unwrap();
    assert_eq!(commits[1], InstanceCommit { instance_id: 1, ciphertext_hash: [2; 32] });
    let check_loaded: Vec<Result<CiphertextMeta, StoreError>> =
        schedule.check_set.iter().map(|&i| Ok(metas[i as usize].clone())).collect();
    let openings = check_openings_from_store(&schedule, &check_loaded).unwrap();
    assert_eq!(openings[0], CheckOpening { instance_id: 0, seed: 100 });
    open_check_instances(&schedule, &commits, &openings, &check_loaded).unwrap();
    let m = require_eval_committed(&schedule, &commits, Ok(metas[2].clone())).unwrap();
    assert_eq!(m.instance_id, 2);
}

#[test]
fn open_check_rejections() {
    let schedule = fixed_schedule(CutAndChooseParams::default()).unwrap();
    let metas: Vec<CiphertextMeta> = (0..3u32).map(|i| meta(i, [i as u8 + 1; 32], 100 + i as u64)).collect();
    let commits: Vec<InstanceCommit> = (0..3u32)
        .map(|i| InstanceCommit { instance_id: i, ciphertext_hash: [i as u8 + 1; 32] })
        .collect();
    let ok = |i: usize| -> Result<CiphertextMeta, StoreError> { Ok(metas[i].clone()) };

    // Wrong count.
    let one = vec![CheckOpening { instance_id: 0, seed: 100 }];
    assert_eq!(
        open_check_instances(&schedule, &commits, &one, &vec![ok(0)]),
        Err(ScheduleError::BadSchedule("opening count ≠ |C|"))
    );
    // Opening the evaluation instance.
    let ops = vec![CheckOpening { instance_id: 2, seed: 102 }, CheckOpening { instance_id: 1, seed: 101 }];
    assert_eq!(
        open_check_instances(&schedule, &commits, &ops, &vec![ok(2), ok(1)]),
        Err(ScheduleError::EvalInCheckSet(2))
    );
    // Seed mismatch.
    let ops = vec![CheckOpening { instance_id: 0, seed: 1 }, CheckOpening { instance_id: 1, seed: 101 }];
    assert_eq!(
        open_check_instances(&schedule, &commits, &ops, &vec![ok(0), ok(1)]),
        Err(ScheduleError::CommitMismatch(0))
    );
    // Duplicate opening leaves instance 1 unopened.
    let ops = vec![CheckOpening { instance_id: 0, seed: 100 }, CheckOpening { instance_id: 0, seed: 100 }];
    assert_eq!(
        open_check_instances(&schedule, &commits, &ops, &vec![ok(0), ok(0)]),
        Err(ScheduleError::CheckNotInSet(1))
    );
    // Missing commit.
    let ops = vec![CheckOpening { instance_id: 0, seed: 100 }, CheckOpening { instance_id: 1, seed: 101 }];
    assert_eq!(
        open_check_instances(&schedule, &commits[1..], &ops, &vec![ok(0), ok(1)]),
        Err(ScheduleError::MissingCommit(0))
    );
    // Store failure is passed on.
    assert_eq!(
        open_check_instances(&schedule, &commits, &ops, &vec![Err(StoreError::NotFound(0)), ok(1)]),
        Err(ScheduleError::Store(StoreError::NotFound(0)))
    );
    // Evaluation instance.
    assert_eq!(
        require_eval_committed(&schedule, &commits[..2], ok(2)),
        Err(ScheduleError::MissingCommit(2))
    );
    assert_eq!(
        require_eval_committed(&schedule, &commits, ok(1)),
        Err(ScheduleError::CommitMismatch(2))
    );
    assert_eq!(
        commits_from_store(2, &vec![ok(0), Err(StoreError::NotFound(1))]),
        Err(ScheduleError::Store(StoreError::NotFound(1)))
    );
}
