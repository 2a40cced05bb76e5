use beacon::phase_b::gsv_adaptor::{GsvAdaptorError, GsvAdaptorOpening, VERSION_GSV_ADAPTOR};
use beacon::phase_c::reconstruct::{adaptor_share_from_gsv_fr_be, reconstruct_label_seed, ShareBundle};

fn scalar(last: u8) -> [u8; 32] {
    let mut a = [0u8; 32];
    a[31] = last;
    a
}

#[test]
fn extract_recovers_garbler_fr() {
    let evaluator = random_secret_key();
    let garbler = random_secret_key();
    let opening = GsvAdaptorOpening::create(7, b"claim", &evaluator, &garbler).unwrap();
    assert_eq!(opening.extract_fr_be32().unwrap(), garbler);
    let enc = opening.encode_fields();
    let dec = GsvAdaptorOpening::decode_fields(&enc).unwrap();
    assert_eq!(dec.extract_fr_be32().unwrap(), garbler);
    assert_eq!(dec.instance_id, 7);
}

#[test]
fn label_material_stable_and_distinct_from_raw_fr() {
    let evaluator = random_secret_key();
    let garbler = random_secret_key();
    let o = GsvAdaptorOpening::create(0, b"x", &evaluator, &garbler).unwrap();
    let m = o.derive_label_material().unwrap();
    assert_eq!(m, o.derive_label_material().unwrap());
    assert_ne!(m, o.extract_fr_be32().unwrap());
}

#[test]
fn gsv_adaptor_create_extract_and_label_material() {
    let evaluator = random_secret_key();
    let garbler = random_secret_key();
    let opening = GsvAdaptorOpening::create(7, b"claim bytes", &evaluator, &garbler).unwrap();
    assert_eq!(opening.version, VERSION_GSV_ADAPTOR);
    assert_eq!(opening.instance_id, 7);
    let fr_be = opening.extract_fr_be32().unwrap();
    let fr_le = opening.extract_fr_le32().unwrap();
    let mut reversed = fr_be;
    reversed.reverse();
    assert_eq!(fr_le, reversed);
    assert_ne!(opening.derive_label_material().unwrap(), [0u8; 32]);

    let (ephemeral, secret) = GsvAdaptorOpening::create_ephemeral(3, b"claim bytes", &evaluator).unwrap();
    assert_eq!(ephemeral.extract_fr_be32().unwrap(), secret);
    assert_eq!(ephemeral.instance_id, 3);
}

#[test]
fn gsv_adaptor_encode_fields_roundtrip() {
    let o = GsvAdaptorOpening::create(9, b"fields", &scalar(5), &scalar(11)).unwrap();
    let enc = o.encode_fields();
    assert_eq!(enc.len(), 263);
    assert_eq!(enc[0], VERSION_GSV_ADAPTOR);
    assert_eq!(&enc[1..5], &9u32.to_le_bytes());
    let dec = GsvAdaptorOpening::decode_fields(&enc).unwrap();
    assert_eq!(dec, o);
    assert_eq!(dec.extract_fr_be32().unwrap(), scalar(11));
}

#[test]
fn zero_share_is_recovered_too() {
    let o = GsvAdaptorOpening::create(1, b"z", &scalar(3), &[0u8; 32]).unwrap();
    assert_eq!(o.extract_fr_be32().unwrap(), [0u8; 32]);
}

#[test]
fn decode_fields_errors() {
    let o = GsvAdaptorOpening::create(9, b"fields", &scalar(5), &scalar(11)).unwrap();
    let enc = o.encode_fields();
    assert_eq!(
        GsvAdaptorOpening::decode_fields(&[]),
        Err(GsvAdaptorError::BadSignature("truncated"))
    );
    let mut bad = enc.clone();
    bad[0] = 2;
    assert_eq!(
        GsvAdaptorOpening::decode_fields(&bad),
        Err(GsvAdaptorError::BadSignature("bad gsv adaptor version"))
    );
    assert_eq!(
        GsvAdaptorOpening::decode_fields(&enc[..100]),
        Err(GsvAdaptorError::BadSignature("truncated"))
    );
    let mut long = enc.clone();
    long.push(0);
    assert_eq!(
        GsvAdaptorOpening::decode_fields(&long),
        Err(GsvAdaptorError::BadSignature("trailing bytes"))
    );
}

#[test]
fn tampered_signature_is_refused() {
    let mut o = GsvAdaptorOpening::create(4, b"t", &scalar(5), &scalar(11)).unwrap();
    o.completed_sig[0] ^= 1;
    assert_eq!(
        o.extract_fr_be32(),
        Err(GsvAdaptorError::BadSignature("unexpected nonce value"))
    );
    let mut o = GsvAdaptorOpening::create(4, b"t", &scalar(5), &scalar(11)).unwrap();
    o.info.garbler_commit = [0xff; 33];
    assert_eq!(o.extract_fr_be32(), Err(GsvAdaptorError::BadPoint));
    assert_eq!(o.checked_extract_fr_be32(), Some(Err(GsvAdaptorError::BadPoint)));
    // A different completed scalar gives a different share.
    let mut o = GsvAdaptorOpening::create(4, b"t", &scalar(5), &scalar(11)).unwrap();
    o.completed_sig[63] ^= 1;
    assert_ne!(o.extract_fr_be32().unwrap(), scalar(11));
}

#[test]
fn message_hash_binds_the_claim() {
    let a = GsvAdaptorOpening::create(0, b"a", &scalar(5), &scalar(1)).unwrap();
    let b = GsvAdaptorOpening::create(0, b"b", &scalar(5), &scalar(1)).unwrap();
    assert_ne!(a.message_hash, b.message_hash);
    assert_eq!(a.message_hash, GsvAdaptorOpening::claim_message_hash(&a.public_inputs_hash));
    assert_eq!(a.evaluator_xonly, b.evaluator_xonly);
    assert!(a.is_extractable());
    assert_eq!(a.checked_derive_label_material(), Some(a.derive_label_material()));
    assert_eq!(a.checked_extract_fr_le32(), Some(a.extract_fr_le32()));
}

fn random_secret_key() -> [u8; 32] {
    secp256k1::SecretKey::new(&mut rand::thread_rng()).secret_bytes()
}


#[test]
fn gsv_adaptor_share_bundle_reconstruct_path() {
    let evaluator = random_secret_key();
    let garbler = random_secret_key();
    let claim = b"reconstruct-path";
    let opening = GsvAdaptorOpening::create(2, claim, &evaluator, &garbler).unwrap();
    let fr_be = opening.extract_fr_be32().unwrap();
    let share_le = adaptor_share_from_gsv_fr_be(&fr_be);
    assert_eq!(share_le, opening.extract_fr_le32().unwrap());

    let bundle = ShareBundle::synthetic_from_adaptor_secret(&share_le);
    let seed = reconstruct_label_seed(Some(&bundle), &share_le);
    let seed_direct = reconstruct_label_seed(None, &share_le);
    assert_ne!(seed, [0u8; 32]);
    assert_ne!(seed_direct, [0u8; 32]);
}

#[test]
fn share_conversion_reduces_modulo_the_order() {
    let mut one = [0u8; 32];
    one[31] = 1;
    let mut le_one = [0u8; 32];
    le_one[0] = 1;
    assert_eq!(adaptor_share_from_gsv_fr_be(&one), le_one);
    // n + 1 reduces to 1.
    let n_plus_one: [u8; 32] = [
        0xff, 0xff, 0xff, 0xff, 0xff, 0xff, 0xff, 0xff, 0xff, 0xff, 0xff, 0xff, 0xff, 0xff, 0xff,
        0xfe, 0xba, 0xae, 0xdc, 0xe6, 0xaf, 0x48, 0xa0, 0x3b, 0xbf, 0xd2, 0x5e, 0x8c, 0xd0, 0x36,
        0x41, 0x42,
    ];
    assert_eq!(adaptor_share_from_gsv_fr_be(&n_plus_one), le_one);
}
