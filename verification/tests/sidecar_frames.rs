use beacon::phase_c::ciphertext_store::StoreError;
use beacon::phase_c::sidecar::{Groth16EvalSidecar, WireLabels, SIDECAR_FORMAT_V1, SIDECAR_MAGIC};

fn sample() -> Groth16EvalSidecar {
    Groth16EvalSidecar {
        k: 6,
        proof_should_verify: true,
        vk: vec![1, 2, 3],
        proof: vec![4; 10],
        public: vec![vec![7; 32], vec![], vec![8; 5]],
        input_wire_values: vec![
            WireLabels { label0: [0x11; 16], label1: [0x22; 16] },
            WireLabels { label0: [0x33; 16], label1: [0x44; 16] },
        ],
        public_params_len: 3,
        garbler_vk: vec![9, 9],
    }
}

#[test]
fn sidecar_roundtrip_frames_only() {
    let s = sample();
    let enc = s.encode();
    assert_eq!(&enc[0..4], &SIDECAR_MAGIC);
    assert_eq!(enc[4], SIDECAR_FORMAT_V1);
    assert_eq!(&enc[5..9], &6u32.to_le_bytes());
    assert_eq!(enc[9], 1);
    // vk object: length 3 then bytes.
    assert_eq!(&enc[10..17], &[3, 0, 0, 0, 1, 2, 3]);
    let dec = Groth16EvalSidecar::decode(&enc).unwrap();
    assert_eq!(dec, s);
}

#[test]
fn sidecar_empty_lists_roundtrip() {
    let s = Groth16EvalSidecar {
        k: 0,
        proof_should_verify: false,
        vk: vec![],
        proof: vec![],
        public: vec![],
        input_wire_values: vec![],
        public_params_len: 0,
        garbler_vk: vec![],
    };
    let enc = s.encode();
    assert_eq!(enc.len(), 4 + 1 + 4 + 1 + 4 + 4 + 4 + 4 + 4 + 4);
    assert_eq!(Groth16EvalSidecar::decode(&enc).unwrap(), s);
}

#[test]
fn sidecar_decode_errors() {
    let enc = sample().encode();
    let mut bad = enc.clone();
    bad[0] = b'X';
    assert_eq!(
        Groth16EvalSidecar::decode(&bad),
        Err(StoreError::BadMeta("sidecar bad magic"))
    );
    let mut bad = enc.clone();
    bad[4] = 2;
    assert_eq!(
        Groth16EvalSidecar::decode(&bad),
        Err(StoreError::BadMeta("sidecar bad format"))
    );
    for cut in [0usize, 3, 9, 12, 40, enc.len() - 1] {
        assert_eq!(
            Groth16EvalSidecar::decode(&enc[..cut]),
            Err(StoreError::BadMeta("sidecar truncated")),
            "cut at {cut}"
        );
    }
    let mut long = enc.clone();
    long.push(0);
    assert_eq!(
        Groth16EvalSidecar::decode(&long),
        Err(StoreError::BadMeta("sidecar trailing bytes"))
    );
    // A wire count larger than the remaining bytes.
    let mut huge = Groth16EvalSidecar { input_wire_values: vec![], ..sample() }.encode();
    let tail_len = 4 + 4 + 2; // public_params_len, garbler vk object
    let count_pos = huge.len() - tail_len - 4;
    huge[count_pos..count_pos + 4].copy_from_slice(&u32::MAX.to_le_bytes());
    assert_eq!(
        Groth16EvalSidecar::decode(&huge),
        Err(StoreError::BadMeta("sidecar truncated"))
    );
}
