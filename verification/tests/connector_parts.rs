use beacon::backend::EvaluationResult;
use beacon::phase_a::regtest_tx::{
    assert_change_amount, disprove_leaf_script, disprove_witness, resolution_for,
    spend_output_amount, timeout_leaf_script, timeout_sequence, timeout_witness, AmountError,
    Resolution,
};
use beacon::tx_templates::DEFAULT_DISPUTE_WINDOW;

fn random_secret_key() -> [u8; 32] {
    secp256k1::SecretKey::new(&mut rand::thread_rng()).secret_bytes()
}


#[test]
fn disprove_leaf_is_sha256_hashlock() {
    let h = [0x42u8; 32];
    let s = disprove_leaf_script(&h);
    assert_eq!(s.len(), 1 + 1 + 32 + 2);
    assert_eq!(s[0], 0xa8);
    assert_eq!(s[1], 32);
    assert_eq!(&s[2..34], &h);
    assert_eq!(&s[34..], &[0x88, 0x51]);
    let b = bitcoin::ScriptBuf::from_bytes(s.clone());
    assert!(b.to_asm_string().starts_with("OP_SHA256 OP_PUSHBYTES_32"));
}

#[test]
fn timeout_leaf_has_window_and_engine_key() {
    let secret = random_secret_key();
    let sk = secp256k1::SecretKey::from_slice(&secret).unwrap();
    let xonly = sk.x_only_public_key(secp256k1::SECP256K1).0.serialize();
    let s = timeout_leaf_script(&secret);
    // 144 needs two script-number bytes: 0x90 then 0x00 for the sign bit.
    assert_eq!(DEFAULT_DISPUTE_WINDOW, 144);
    assert_eq!(&s[0..3], &[0x02, 0x90, 0x00]);
    assert_eq!(&s[3..5], &[0xb2, 0x75]);
    assert_eq!(s[5], 32);
    assert_eq!(&s[6..38], &xonly);
    assert_eq!(s[38], 0xac);
    assert_eq!(s.len(), 39);
}

#[test]
fn amounts() {
    assert_eq!(assert_change_amount(200_000, 100_000), Ok(99_500));
    assert_eq!(assert_change_amount(100_500, 100_000), Ok(0));
    assert_eq!(assert_change_amount(99_999, 100_000), Err(AmountError::InsufficientFunds));
    assert_eq!(
        assert_change_amount(100_499, 100_000),
        Err(AmountError::InsufficientFundsForFee)
    );
    assert_eq!(spend_output_amount(100_000, 1_000), Ok(99_000));
    assert_eq!(spend_output_amount(999, 1_000), Err(AmountError::FeeTooHigh));
    assert_eq!(AmountError::FeeTooHigh.message(), "fee too high");
    assert_eq!(AmountError::InsufficientFunds.message(), "insufficient funds");
    assert_eq!(timeout_sequence(), 144);
}

#[test]
fn witness_stacks_and_resolution() {
    let w = disprove_witness(&[1; 32], &[2, 3], &[4]);
    assert_eq!(w, vec![vec![1u8; 32], vec![2, 3], vec![4]]);
    let w = timeout_witness(&[0; 64], &[5], &[6, 7]);
    assert_eq!(w, vec![vec![0u8; 64], vec![5], vec![6, 7]]);
    assert_eq!(
        resolution_for(EvaluationResult::Valid),
        Resolution::Timeout { wait_blocks: 144 }
    );
    assert_eq!(
        resolution_for(EvaluationResult::Invalid { l_invalid: [9; 32] }),
        Resolution::Disprove { l_invalid: [9; 32] }
    );
}
