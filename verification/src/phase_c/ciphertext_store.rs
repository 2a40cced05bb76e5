//! Off-chain garbled ciphertext commitments (cut-and-choose).
//!
//! Ciphertexts stay off-chain; the Assert only needs the commitment
//! (`ciphertext_hash`). The directory-backed store itself does file I/O; the
//! checks it applies to what it reads stand here.

use crate::hashing::eq32;
use crate::text::{decimal, hex_chars, hex_encode, push_decimal};
use vstd::prelude::*;
use vstd::string::StringExecFns;

verus! {

/// Wire / disk format version for [`CiphertextMeta`].
pub const META_FORMAT_V1: u8 = 1;

/// Hash algorithm id for the Blake3 accumulating ciphertext hash.
pub const HASH_ALG_BLAKE3_ACCUM: &'static str = "blake3-accum";

/// Hash algorithm id for SHA256 of the whole stream file.
pub const HASH_ALG_SHA256_FILE: &'static str = "sha256-file";

/// Metadata for one cut-and-choose instance's garbled stream.
#[derive(Clone, Debug, PartialEq, Eq)]
pub struct CiphertextMeta {
    pub format: u8,
    pub instance_id: u32,
    /// Commitment checked when loading the stream.
    pub ciphertext_hash: [u8; 32],
    pub hash_alg: String,
    pub seed: u64,
    pub true_wire: u128,
    pub false_wire: u128,
    pub l_invalid: [u8; 32],
    pub l_valid: [u8; 32],
    /// Relative file name under the store root (e.g. `gc_0.bin`).
    pub stream_file: String,
    /// Optional evaluation sidecar (`gc_{id}.eval.bin`).
    pub sidecar_file: Option<String>,
    /// SHA256 of the sidecar bytes (when present).
    pub sidecar_hash: Option<[u8; 32]>,
}

impl CiphertextMeta {
    /// An identical copy of the metadata.
    pub fn duplicate(&self) -> (m: Self)
        ensures
            m == *self,
    {
        CiphertextMeta {
            format: self.format,
            instance_id: self.instance_id,
            ciphertext_hash: self.ciphertext_hash,
            hash_alg: self.hash_alg.clone(),
            seed: self.seed,
            true_wire: self.true_wire,
            false_wire: self.false_wire,
            l_invalid: self.l_invalid,
            l_valid: self.l_valid,
            stream_file: self.stream_file.clone(),
            sidecar_file: match &self.sidecar_file {
                Some(f) => Some(f.clone()),
                None => None,
            },
            sidecar_hash: self.sidecar_hash,
        }
    }
}

/// Errors of the ciphertext store. I/O and JSON failures carry their message.
#[derive(Debug, Clone, PartialEq, Eq)]
pub enum StoreError {
    Io(String),
    Json(String),
    NotFound(u32),
    HashMismatch { instance_id: u32, expected: [u8; 32], got: [u8; 32] },
    BadMeta(&'static str),
    SidecarMissing(u32),
    SidecarHashMismatch { instance_id: u32, expected: [u8; 32], got: [u8; 32] },
}

impl StoreError {
    /// An identical copy of the error.
    pub fn duplicate(&self) -> (e: Self)
        ensures
            e == *self,
    {
        match self {
            StoreError::Io(m) => StoreError::Io(m.clone()),
            StoreError::Json(m) => StoreError::Json(m.clone()),
            StoreError::NotFound(i) => StoreError::NotFound(*i),
            StoreError::HashMismatch { instance_id, expected, got } => StoreError::HashMismatch {
                instance_id: *instance_id,
                expected: *expected,
                got: *got,
            },
            StoreError::BadMeta(m) => StoreError::BadMeta(*m),
            StoreError::SidecarMissing(i) => StoreError::SidecarMissing(*i),
            StoreError::SidecarHashMismatch { instance_id, expected, got } =>
                StoreError::SidecarHashMismatch {
                instance_id: *instance_id,
                expected: *expected,
                got: *got,
            },
        }
    }
}

/// The message of a store error.
pub open spec fn store_error_text(e: StoreError) -> Seq<char> {
    match e {
        StoreError::Io(m) => "ciphertext store io: "@ + m@,
        StoreError::Json(m) => "ciphertext store json: "@ + m@,
        StoreError::NotFound(id) => "ciphertext store: instance "@ + decimal(id as nat)
            + " not found"@,
        StoreError::HashMismatch { instance_id, expected, got } => "ciphertext store: instance "@
            + decimal(instance_id as nat) + " hash mismatch expected="@ + hex_chars(expected@)
            + " got="@ + hex_chars(got@),
        StoreError::BadMeta(m) => "ciphertext store: bad meta ("@ + m@ + ")"@,
        StoreError::SidecarMissing(id) => "ciphertext store: sidecar missing for instance "@
            + decimal(id as nat),
        StoreError::SidecarHashMismatch { instance_id, expected, got } =>
            "ciphertext store: instance "@ + decimal(instance_id as nat)
            + " sidecar hash mismatch expected="@ + hex_chars(expected@) + " got="@ + hex_chars(
            got@,
        ),
    }
}

impl StoreError {
    /// The error's message.
    pub fn to_string(&self) -> (s: String)
        ensures
            s@ == store_error_text(*self),
    {
        match self {
            StoreError::Io(m) => {
                let mut s = String::from_str("ciphertext store io: ");
                s.append(m.as_str());
                s
            },
            StoreError::Json(m) => {
                let mut s = String::from_str("ciphertext store json: ");
                s.append(m.as_str());
                s
            },
            StoreError::NotFound(id) => {
                let mut s = String::from_str("ciphertext store: instance ");
                push_decimal(&mut s, *id as u64);
                s.append(" not found");
                s
            },
            StoreError::HashMismatch { instance_id, expected, got } => {
                let mut s = String::from_str("ciphertext store: instance ");
                push_decimal(&mut s, *instance_id as u64);
                s.append(" hash mismatch expected=");
                s.append(hex_encode(expected).as_str());
                s.append(" got=");
                s.append(hex_encode(got).as_str());
                s
            },
            StoreError::BadMeta(m) => {
                let mut s = String::from_str("ciphertext store: bad meta (");
                s.append(m);
                s.append(")");
                s
            },
            StoreError::SidecarMissing(id) => {
                let mut s = String::from_str("ciphertext store: sidecar missing for instance ");
                push_decimal(&mut s, *id as u64);
                s
            },
            StoreError::SidecarHashMismatch { instance_id, expected, got } => {
                let mut s = String::from_str("ciphertext store: instance ");
                push_decimal(&mut s, *instance_id as u64);
                s.append(" sidecar hash mismatch expected=");
                s.append(hex_encode(expected).as_str());
                s.append(" got=");
                s.append(hex_encode(got).as_str());
                s
            },
        }
    }
}

/// `gc_{id}{suffix}`.
pub open spec fn instance_file_name(instance_id: u32, suffix: Seq<char>) -> Seq<char> {
    "gc_"@ + decimal(instance_id as nat) + suffix
}

fn instance_file(instance_id: u32, suffix: &str) -> (name: String)
    ensures
        name@ == instance_file_name(instance_id, suffix@),
{
    let mut name = String::from_str("gc_");
    push_decimal(&mut name, instance_id as u64);
    name.append(suffix);
    name
}

/// File name of the garbled stream of an instance: `gc_{id}.bin`.
pub fn stream_file_name(instance_id: u32) -> (name: String)
    ensures
        name@ == instance_file_name(instance_id, ".bin"@),
{
    instance_file(instance_id, ".bin")
}

/// File name of the metadata of an instance: `gc_{id}.meta.json`.
pub fn meta_file_name(instance_id: u32) -> (name: String)
    ensures
        name@ == instance_file_name(instance_id, ".meta.json"@),
{
    instance_file(instance_id, ".meta.json")
}

/// File name of the evaluation sidecar of an instance: `gc_{id}.eval.bin`.
pub fn sidecar_file_name(instance_id: u32) -> (name: String)
    ensures
        name@ == instance_file_name(instance_id, ".eval.bin"@),
{
    instance_file(instance_id, ".eval.bin")
}

/// Only format-1 metadata is written.
pub fn check_meta_format(meta: &CiphertextMeta) -> (r: Result<(), StoreError>)
    ensures
        r is Ok <==> meta.format == META_FORMAT_V1,
        r matches Err(e) ==> e == StoreError::BadMeta("unsupported format"),
{
    if meta.format != META_FORMAT_V1 {
        return Err(StoreError::BadMeta("unsupported format"));
    }
    Ok(())
}

/// Checks on metadata loaded for `instance_id`: supported format, then matching id.
pub fn check_loaded_meta(meta: CiphertextMeta, instance_id: u32) -> (r: Result<
    CiphertextMeta,
    StoreError,
>)
    ensures
        meta.format != META_FORMAT_V1 ==> r == Err::<CiphertextMeta, StoreError>(
            StoreError::BadMeta("unsupported format"),
        ),
        meta.format == META_FORMAT_V1 && meta.instance_id != instance_id ==> r == Err::<
            CiphertextMeta,
            StoreError,
        >(StoreError::BadMeta("instance_id mismatch")),
        meta.format == META_FORMAT_V1 && meta.instance_id == instance_id ==> r == Ok::<
            CiphertextMeta,
            StoreError,
        >(meta),
{
    if meta.format != META_FORMAT_V1 {
        return Err(StoreError::BadMeta("unsupported format"));
    }
    if meta.instance_id != instance_id {
        return Err(StoreError::BadMeta("instance_id mismatch"));
    }
    Ok(meta)
}

/// How a stream's commitment is computed.
#[derive(Debug, Clone, Copy, PartialEq, Eq)]
pub enum HashAlg {
    /// SHA256 of the whole stream file.
    Sha256File,
    /// Blake3 accumulating hash (needs the garbled-snark-verifier crate).
    Blake3Accum,
}

/// The hash algorithm named in metadata. The Blake3 accumulating hash needs
/// the garbled-snark-verifier crate, which this crate does not link.
pub fn stream_hash_alg(meta: &CiphertextMeta) -> (r: Result<HashAlg, StoreError>)
    ensures
        meta.hash_alg@ == HASH_ALG_SHA256_FILE@ ==> r == Ok::<HashAlg, StoreError>(
            HashAlg::Sha256File,
        ),
        meta.hash_alg@ == HASH_ALG_BLAKE3_ACCUM@ ==> r == Err::<HashAlg, StoreError>(
            StoreError::BadMeta("blake3-accum requires the gsv feature"),
        ),
        meta.hash_alg@ != HASH_ALG_SHA256_FILE@ && meta.hash_alg@ != HASH_ALG_BLAKE3_ACCUM@ ==> r
            == Err::<HashAlg, StoreError>(StoreError::BadMeta("unknown hash_alg")),
{
    proof {
        reveal_strlit("sha256-file");
        reveal_strlit("blake3-accum");
        assert(HASH_ALG_SHA256_FILE@[0] != HASH_ALG_BLAKE3_ACCUM@[0]);
    }
    if meta.hash_alg == String::from_str(HASH_ALG_SHA256_FILE) {
        Ok(HashAlg::Sha256File)
    } else if meta.hash_alg == String::from_str(HASH_ALG_BLAKE3_ACCUM) {
        Err(StoreError::BadMeta("blake3-accum requires the gsv feature"))
    } else {
        Err(StoreError::BadMeta("unknown hash_alg"))
    }
}

/// Compare the hash computed over a stream with the metadata commitment.
pub fn check_stream_hash(meta: CiphertextMeta, instance_id: u32, got: [u8; 32]) -> (r: Result<
    CiphertextMeta,
    StoreError,
>)
    ensures
        got == meta.ciphertext_hash ==> r == Ok::<CiphertextMeta, StoreError>(meta),
        got != meta.ciphertext_hash ==> r == Err::<CiphertextMeta, StoreError>(
            StoreError::HashMismatch { instance_id, expected: meta.ciphertext_hash, got },
        ),
{
    if !eq32(&got, &meta.ciphertext_hash) {
        return Err(StoreError::HashMismatch { instance_id, expected: meta.ciphertext_hash, got });
    }
    Ok(meta)
}

/// The sidecar file and hash listed in metadata, or `SidecarMissing`.
pub fn listed_sidecar(meta: &CiphertextMeta) -> (r: Result<(String, [u8; 32]), StoreError>)
    ensures
        match (meta.sidecar_file, meta.sidecar_hash) {
            (Some(f), Some(h)) => r == Ok::<(String, [u8; 32]), StoreError>((f, h)),
            _ => r == Err::<(String, [u8; 32]), StoreError>(
                StoreError::SidecarMissing(meta.instance_id),
            ),
        },
{
    match (&meta.sidecar_file, &meta.sidecar_hash) {
        (Some(f), Some(h)) => Ok((f.clone(), *h)),
        _ => Err(StoreError::SidecarMissing(meta.instance_id)),
    }
}

/// Compare the SHA256 of sidecar bytes with the listed hash.
pub fn check_sidecar_hash(instance_id: u32, expected: [u8; 32], got: [u8; 32]) -> (r: Result<
    (),
    StoreError,
>)
    ensures
        got == expected ==> r is Ok,
        got != expected ==> r == Err::<(), StoreError>(
            StoreError::SidecarHashMismatch { instance_id, expected, got },
        ),
{
    if !eq32(&got, &expected) {
        return Err(StoreError::SidecarHashMismatch { instance_id, expected, got });
    }
    Ok(())
}

} // verus!
