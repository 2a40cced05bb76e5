//! Schnorr adaptor opening whose completed signature reveals a garbler share
//! of the scalar field (the `AdaptorInfo` construction of the cut-and-choose
//! garbling scheme).
//!
//! Completing a BIP340 signature under the evaluator key reveals the garbler
//! share `g`: with `C = nonce_commit + garbler_commit`, the completed scalar is
//! `s + g` (or `s − g` with `R = −C` when `C.y` is odd), so `g = ±(s' − s)`.
//!
//! Scalars travel as 32-byte big-endian encodings below the group order,
//! points as 33-byte compressed encodings.

use crate::hashing::{
    append_bytes, sha256, sha256_of, TAG_BIP340_CHALLENGE, TAG_GSV_ADAPTOR_LABELS,
    TAG_GSV_ADAPTOR_MESSAGE,
};
use crate::phase_b::adaptor::{be_value, curve_order, is_secret_scalar};
use crate::wire::{arr32, lemma_arr32_of_view};
use ark_ec::{AffineRepr, CurveGroup, PrimeGroup};
use ark_ff::{BigInteger, PrimeField, UniformRand};
use ark_secp256k1::{Fr, Projective};
use ark_serialize::{CanonicalDeserialize, CanonicalSerialize};
use vstd::bytes::{spec_u32_from_le_bytes, spec_u32_to_le_bytes, u32_from_le_bytes, u32_to_le_bytes};
use vstd::prelude::*;
use vstd::string::StringExecFns;

verus! {

/// Protocol version of these openings (also their Assert-witness opening tag).
pub const VERSION_GSV_ADAPTOR: u8 = 3;

/// Length of the encoded opening fields.
pub const GSV_FIELDS_LEN: usize = 263;

#[derive(Debug, Clone, Copy, PartialEq, Eq)]
pub enum GsvAdaptorError {
    BadPoint,
    BadSignature(&'static str),
    Serialize,
}

impl GsvAdaptorError {
    /// The error's message.
    pub fn to_string(&self) -> (s: String)
        ensures
            s@ == match *self {
                GsvAdaptorError::BadPoint => "gsv adaptor: bad secp256k1 point"@,
                GsvAdaptorError::BadSignature(m) => "gsv adaptor: "@ + m@,
                GsvAdaptorError::Serialize => "gsv adaptor: serialize/deserialize failed"@,
            },
    {
        match self {
            GsvAdaptorError::BadPoint => String::from_str("gsv adaptor: bad secp256k1 point"),
            GsvAdaptorError::BadSignature(m) => {
                let mut s = String::from_str("gsv adaptor: ");
                s.append(m);
                s
            },
            GsvAdaptorError::Serialize => String::from_str(
                "gsv adaptor: serialize/deserialize failed",
            ),
        }
    }
}

/// Incomplete adaptor information.
#[derive(Clone, Copy, Debug, PartialEq, Eq)]
pub struct GsvAdaptorInfoBytes {
    /// Compressed `garbler_commit = g·G`.
    pub garbler_commit: [u8; 33],
    /// Compressed evaluator nonce commitment.
    pub evaluator_nonce_commit: [u8; 33],
    /// Evaluator partial scalar `s` (big-endian).
    pub evaluator_s: [u8; 32],
}

/// Self-contained Assert opening that yields a garbler share.
#[derive(Clone, Copy, Debug, PartialEq, Eq)]
pub struct GsvAdaptorOpening {
    pub version: u8,
    pub instance_id: u32,
    /// Evaluator BIP340 x-only public key.
    pub evaluator_xonly: [u8; 32],
    /// Message covered by the BIP340 signature.
    pub message_hash: [u8; 32],
    /// `SHA256(claim_bytes)` for statement binding.
    pub public_inputs_hash: [u8; 32],
    pub info: GsvAdaptorInfoBytes,
    /// Completed BIP340 signature (`R.x || s`).
    pub completed_sig: [u8; 64],
}

// ---------------------------------------------------------------------------
// Wire form of the fields
// ---------------------------------------------------------------------------

/// The fields in wire order:
/// `version || instance (LE) || xonly || message || inputs hash || garbler commit
/// || nonce commit || evaluator s || completed signature`.
pub open spec fn gsv_fields_bytes(o: GsvAdaptorOpening) -> Seq<u8> {
    seq![o.version] + spec_u32_to_le_bytes(o.instance_id) + o.evaluator_xonly@ + o.message_hash@
        + o.public_inputs_hash@ + o.info.garbler_commit@ + o.info.evaluator_nonce_commit@
        + o.info.evaluator_s@ + o.completed_sig@
}

/// The 33-byte array whose bytes are `s`.
pub open spec fn arr33(s: Seq<u8>) -> [u8; 33] {
    choose|a: [u8; 33]| a@ == s
}

/// The 64-byte array whose bytes are `s`.
pub open spec fn arr64(s: Seq<u8>) -> [u8; 64] {
    choose|a: [u8; 64]| a@ == s
}

/// The opening stored in exactly [`GSV_FIELDS_LEN`] bytes.
pub open spec fn gsv_fields_at(b: Seq<u8>) -> GsvAdaptorOpening {
    GsvAdaptorOpening {
        version: b[0],
        instance_id: spec_u32_from_le_bytes(b.subrange(1, 5)),
        evaluator_xonly: arr32(b.subrange(5, 37)),
        message_hash: arr32(b.subrange(37, 69)),
        public_inputs_hash: arr32(b.subrange(69, 101)),
        info: GsvAdaptorInfoBytes {
            garbler_commit: arr33(b.subrange(101, 134)),
            evaluator_nonce_commit: arr33(b.subrange(134, 167)),
            evaluator_s: arr32(b.subrange(167, 199)),
        },
        completed_sig: arr64(b.subrange(199, 263)),
    }
}

/// What decoding gives: the opening, or the first problem met reading it.
pub open spec fn gsv_fields_decode(b: Seq<u8>) -> Result<GsvAdaptorOpening, GsvAdaptorError> {
    if b.len() == 0 {
        Err(GsvAdaptorError::BadSignature("truncated"))
    } else if b[0] != VERSION_GSV_ADAPTOR {
        Err(GsvAdaptorError::BadSignature("bad gsv adaptor version"))
    } else if b.len() < GSV_FIELDS_LEN {
        Err(GsvAdaptorError::BadSignature("truncated"))
    } else if b.len() > GSV_FIELDS_LEN {
        Err(GsvAdaptorError::BadSignature("trailing bytes"))
    } else {
        Ok(gsv_fields_at(b))
    }
}

proof fn lemma_arr33_of_view(a: [u8; 33])
    ensures
        arr33(a@) == a,
{
    let c = arr33(a@);
    assert(a@ == a@);
    assert(c@ == a@);
    broadcast use vstd::array::group_array_axioms;

    assert forall|j: int| 0 <= j < 33 implies c[j] == a[j] by {
        assert(c@[j] == a@[j]);
    }
    assert(c =~= a);
}

proof fn lemma_arr64_of_view(a: [u8; 64])
    ensures
        arr64(a@) == a,
{
    let c = arr64(a@);
    assert(a@ == a@);
    assert(c@ == a@);
    broadcast use vstd::array::group_array_axioms;

    assert forall|j: int| 0 <= j < 64 implies c[j] == a[j] by {
        assert(c@[j] == a@[j]);
    }
    assert(c =~= a);
}

fn copy_array33(s: &[u8]) -> (a: [u8; 33])
    requires
        s@.len() == 33,
    ensures
        a@ == s@,
{
    let mut a = [0u8; 33];
    let mut i: usize = 0;
    while i < 33
        invariant
            0 <= i <= 33,
            s@.len() == 33,
            forall|j: int| 0 <= j < i ==> a@[j] == s@[j],
        decreases 33 - i,
    {
        a[i] = s[i];
        i = i + 1;
    }
    proof {
        assert(a@ =~= s@);
    }
    a
}

fn copy_array64(s: &[u8]) -> (a: [u8; 64])
    requires
        s@.len() == 64,
    ensures
        a@ == s@,
{
    let mut a = [0u8; 64];
    let mut i: usize = 0;
    while i < 64
        invariant
            0 <= i <= 64,
            s@.len() == 64,
            forall|j: int| 0 <= j < i ==> a@[j] == s@[j],
        decreases 64 - i,
    {
        a[i] = s[i];
        i = i + 1;
    }
    proof {
        assert(a@ =~= s@);
    }
    a
}

fn copy_array32(s: &[u8]) -> (a: [u8; 32])
    requires
        s@.len() == 32,
    ensures
        a@ == s@,
{
    let mut a = [0u8; 32];
    let mut i: usize = 0;
    while i < 32
        invariant
            0 <= i <= 32,
            s@.len() == 32,
            forall|j: int| 0 <= j < i ==> a@[j] == s@[j],
        decreases 32 - i,
    {
        a[i] = s[i];
        i = i + 1;
    }
    proof {
        assert(a@ =~= s@);
    }
    a
}

impl GsvAdaptorOpening {
    /// Encode the opening fields (they follow the witness opening tag).
    pub fn encode_fields(&self) -> (out: Vec<u8>)
        ensures
            out@ == gsv_fields_bytes(*self),
    {
        let mut out: Vec<u8> = Vec::with_capacity(256);
        out.push(self.version);
        let id = u32_to_le_bytes(self.instance_id);
        append_bytes(&mut out, id.as_slice());
        append_bytes(&mut out, &self.evaluator_xonly);
        append_bytes(&mut out, &self.message_hash);
        append_bytes(&mut out, &self.public_inputs_hash);
        append_bytes(&mut out, &self.info.garbler_commit);
        append_bytes(&mut out, &self.info.evaluator_nonce_commit);
        append_bytes(&mut out, &self.info.evaluator_s);
        append_bytes(&mut out, &self.completed_sig);
        proof {
            assert(out@ =~= gsv_fields_bytes(*self));
        }
        out
    }

    /// Decode the fields (after the opening tag byte has been consumed).
    pub fn decode_fields(bytes: &[u8]) -> (r: Result<Self, GsvAdaptorError>)
        ensures
            r == gsv_fields_decode(bytes@),
            r matches Ok(o) ==> gsv_fields_bytes(o) == bytes@,
    {
        if bytes.len() == 0 {
            return Err(GsvAdaptorError::BadSignature("truncated"));
        }
        let version = bytes[0];
        if version != VERSION_GSV_ADAPTOR {
            return Err(GsvAdaptorError::BadSignature("bad gsv adaptor version"));
        }
        if bytes.len() < GSV_FIELDS_LEN {
            return Err(GsvAdaptorError::BadSignature("truncated"));
        }
        if bytes.len() > GSV_FIELDS_LEN {
            return Err(GsvAdaptorError::BadSignature("trailing bytes"));
        }
        let instance_id = u32_from_le_bytes(vstd::slice::slice_subrange(bytes, 1, 5));
        let evaluator_xonly = copy_array32(vstd::slice::slice_subrange(bytes, 5, 37));
        let message_hash = copy_array32(vstd::slice::slice_subrange(bytes, 37, 69));
        let public_inputs_hash = copy_array32(vstd::slice::slice_subrange(bytes, 69, 101));
        let garbler_commit = copy_array33(vstd::slice::slice_subrange(bytes, 101, 134));
        let evaluator_nonce_commit = copy_array33(vstd::slice::slice_subrange(bytes, 134, 167));
        let evaluator_s = copy_array32(vstd::slice::slice_subrange(bytes, 167, 199));
        let completed_sig = copy_array64(vstd::slice::slice_subrange(bytes, 199, 263));
        let o = GsvAdaptorOpening {
            version,
            instance_id,
            evaluator_xonly,
            message_hash,
            public_inputs_hash,
            info: GsvAdaptorInfoBytes { garbler_commit, evaluator_nonce_commit, evaluator_s },
            completed_sig,
        };
        proof {
            lemma_arr32_of_view(evaluator_xonly);
            lemma_arr32_of_view(message_hash);
            lemma_arr32_of_view(public_inputs_hash);
            lemma_arr33_of_view(garbler_commit);
            lemma_arr33_of_view(evaluator_nonce_commit);
            lemma_arr32_of_view(evaluator_s);
            lemma_arr64_of_view(completed_sig);
            vstd::bytes::lemma_auto_spec_u32_to_from_le_bytes();
            assert(gsv_fields_bytes(o) =~= bytes@);
        }
        Ok(o)
    }
}

/// Decoding the encoded fields of an opening of this version gives the opening
/// back; any other version is refused as such.
pub proof fn lemma_gsv_fields_roundtrip(o: GsvAdaptorOpening)
    ensures
        o.version == VERSION_GSV_ADAPTOR ==> gsv_fields_decode(gsv_fields_bytes(o)) == Ok::<
            GsvAdaptorOpening,
            GsvAdaptorError,
        >(o),
        o.version != VERSION_GSV_ADAPTOR ==> gsv_fields_decode(gsv_fields_bytes(o)) == Err::<
            GsvAdaptorOpening,
            GsvAdaptorError,
        >(GsvAdaptorError::BadSignature("bad gsv adaptor version")),
{
    let b = gsv_fields_bytes(o);
    vstd::bytes::lemma_auto_spec_u32_to_from_le_bytes();
    assert(spec_u32_to_le_bytes(o.instance_id).len() == 4);
    assert(b.len() == GSV_FIELDS_LEN);
    assert(b[0] == o.version);
    if o.version == VERSION_GSV_ADAPTOR {
        assert(b.subrange(1, 5) =~= spec_u32_to_le_bytes(o.instance_id));
        assert(b.subrange(5, 37) =~= o.evaluator_xonly@);
        assert(b.subrange(37, 69) =~= o.message_hash@);
        assert(b.subrange(69, 101) =~= o.public_inputs_hash@);
        assert(b.subrange(101, 134) =~= o.info.garbler_commit@);
        assert(b.subrange(134, 167) =~= o.info.evaluator_nonce_commit@);
        assert(b.subrange(167, 199) =~= o.info.evaluator_s@);
        assert(b.subrange(199, 263) =~= o.completed_sig@);
        lemma_arr32_of_view(o.evaluator_xonly);
        lemma_arr32_of_view(o.message_hash);
        lemma_arr32_of_view(o.public_inputs_hash);
        lemma_arr33_of_view(o.info.garbler_commit);
        lemma_arr33_of_view(o.info.evaluator_nonce_commit);
        lemma_arr32_of_view(o.info.evaluator_s);
        lemma_arr64_of_view(o.completed_sig);
    }
}

// ---------------------------------------------------------------------------
// Scalar field and curve operations (ark-secp256k1)
// ---------------------------------------------------------------------------

/// The scalar a 32-byte string stands for: its big-endian value modulo the order.
pub open spec fn fr_of(b: Seq<u8>) -> nat {
    be_value(b) % curve_order()
}

/// Whether 33 bytes are a compressed encoding of a curve point.
pub uninterp spec fn is_point_encoding(p: Seq<u8>) -> bool;

/// The compressed encoding of `k·G` for the scalar `k` (big-endian, reduced).
pub uninterp spec fn generator_multiple(k: Seq<u8>) -> [u8; 33];

/// The compressed encoding of the sum of two encoded points.
pub uninterp spec fn point_sum(a: Seq<u8>, b: Seq<u8>) -> [u8; 33];

/// The compressed encoding of the negation of an encoded point.
pub uninterp spec fn point_negation(a: Seq<u8>) -> [u8; 33];

/// The affine form of an encoded point: its x coordinate (big-endian) and
/// whether its y coordinate is odd; `None` at infinity.
pub uninterp spec fn point_affine(a: Seq<u8>) -> Option<([u8; 32], bool)>;

/// Calls `Projective::deserialize_compressed` and reports whether it succeeds.
#[verifier::external_body]
fn point_decodes(p: &[u8; 33]) -> (ok: bool)
    ensures
        ok == is_point_encoding(p@),
{
    Projective::deserialize_compressed(&p[..]).is_ok()
}

/// `Projective::generator() * Fr::from_be_bytes_mod_order(k)`, serialized
/// compressed (33 bytes for this curve). `k·G` is at infinity exactly when
/// `k` is zero modulo the order (the generator has prime order).
#[verifier::external_body]
fn mul_generator(k: &[u8; 32]) -> (p: [u8; 33])
    ensures
        p == generator_multiple(k@),
        is_point_encoding(p@),
        point_affine(p@) is Some <==> fr_of(k@) != 0,
{
    let point = Projective::generator() * Fr::from_be_bytes_mod_order(k);
    let mut buf: Vec<u8> = Vec::with_capacity(33);
    point.serialize_compressed(&mut buf).unwrap();
    buf.try_into().unwrap()
}

/// Deserializes both points, adds them (`Projective + Projective`) and
/// serializes the sum compressed.
#[verifier::external_body]
fn add_points(a: &[u8; 33], b: &[u8; 33]) -> (p: [u8; 33])
    requires
        is_point_encoding(a@),
        is_point_encoding(b@),
    ensures
        p == point_sum(a@, b@),
        is_point_encoding(p@),
{
    let pa = Projective::deserialize_compressed(&a[..]).unwrap();
    let pb = Projective::deserialize_compressed(&b[..]).unwrap();
    let mut buf: Vec<u8> = Vec::with_capacity(33);
    (pa + pb).serialize_compressed(&mut buf).unwrap();
    buf.try_into().unwrap()
}

/// Deserializes a point, negates it (`-Projective`) and serializes it
/// compressed. Negation `(x, y) ↦ (x, −y)` keeps the x coordinate and infinity.
#[verifier::external_body]
fn negate_point(a: &[u8; 33]) -> (p: [u8; 33])
    requires
        is_point_encoding(a@),
    ensures
        p == point_negation(a@),
        is_point_encoding(p@),
        point_affine(p@) is Some <==> point_affine(a@) is Some,
        point_affine(p@) is Some ==> point_affine(p@)->Some_0.0 == point_affine(a@)->Some_0.0,
{
    let pa = Projective::deserialize_compressed(&a[..]).unwrap();
    let mut buf: Vec<u8> = Vec::with_capacity(33);
    (-pa).serialize_compressed(&mut buf).unwrap();
    buf.try_into().unwrap()
}

/// Deserializes a point, calls `into_affine` and `xy`, and converts the
/// coordinates: x to 32 big-endian bytes, y to its parity (`is_odd`).
#[verifier::external_body]
fn affine_parts(a: &[u8; 33]) -> (r: Option<([u8; 32], bool)>)
    requires
        is_point_encoding(a@),
    ensures
        r == point_affine(a@),
{
    let aff = Projective::deserialize_compressed(&a[..]).unwrap().into_affine();
    aff.xy().map(|(x, y)| (x.into_bigint().to_bytes_be().try_into().unwrap(), y.into_bigint().is_odd()))
}

/// `Fr::from_be_bytes_mod_order`, re-encoded big-endian.
#[verifier::external_body]
pub(crate) fn fr_reduce(b: &[u8; 32]) -> (r: [u8; 32])
    ensures
        be_value(r@) == fr_of(b@),
{
    Fr::from_be_bytes_mod_order(b).into_bigint().to_bytes_be().try_into().unwrap()
}

/// `Fr + Fr` on the reduced inputs, re-encoded big-endian.
#[verifier::external_body]
fn fr_add(a: &[u8; 32], b: &[u8; 32]) -> (r: [u8; 32])
    ensures
        be_value(r@) == (fr_of(a@) + fr_of(b@)) % curve_order(),
{
    (Fr::from_be_bytes_mod_order(a) + Fr::from_be_bytes_mod_order(b)).into_bigint().to_bytes_be().try_into().unwrap()
}

/// `Fr - Fr` on the reduced inputs, re-encoded big-endian.
#[verifier::external_body]
fn fr_sub(a: &[u8; 32], b: &[u8; 32]) -> (r: [u8; 32])
    ensures
        be_value(r@) == (fr_of(a@) - fr_of(b@)) % (curve_order() as int),
{
    (Fr::from_be_bytes_mod_order(a) - Fr::from_be_bytes_mod_order(b)).into_bigint().to_bytes_be().try_into().unwrap()
}

/// `Fr * Fr` on the reduced inputs, re-encoded big-endian.
#[verifier::external_body]
fn fr_mul(a: &[u8; 32], b: &[u8; 32]) -> (r: [u8; 32])
    ensures
        be_value(r@) == (fr_of(a@) * fr_of(b@)) % curve_order(),
{
    (Fr::from_be_bytes_mod_order(a) * Fr::from_be_bytes_mod_order(b)).into_bigint().to_bytes_be().try_into().unwrap()
}

/// `-Fr` on the reduced input, re-encoded big-endian.
#[verifier::external_body]
fn fr_neg(a: &[u8; 32]) -> (r: [u8; 32])
    ensures
        be_value(r@) == (0 - fr_of(a@)) % (curve_order() as int),
{
    (-Fr::from_be_bytes_mod_order(a)).into_bigint().to_bytes_be().try_into().unwrap()
}

/// `Fr::rand` with the thread RNG, encoded big-endian: some reduced scalar.
#[verifier::external_body]
fn fr_random() -> (r: [u8; 32])
    ensures
        be_value(r@) < curve_order(),
{
    Fr::rand(&mut rand::thread_rng()).into_bigint().to_bytes_be().try_into().unwrap()
}

// ---------------------------------------------------------------------------
// Extraction
// ---------------------------------------------------------------------------

/// Both commitments of the adaptor information decode as points.
pub open spec fn info_points_decode(info: GsvAdaptorInfoBytes) -> bool {
    is_point_encoding(info.garbler_commit@) && is_point_encoding(info.evaluator_nonce_commit@)
}

/// The commitment sum `C = nonce_commit + garbler_commit`.
pub open spec fn commit_sum_of(info: GsvAdaptorInfoBytes) -> [u8; 33] {
    point_sum(info.evaluator_nonce_commit@, info.garbler_commit@)
}

/// Extraction is defined: when the commitments decode, their sum is not at
/// infinity (its affine form is needed).
pub open spec fn gsv_extractable(o: GsvAdaptorOpening) -> bool {
    info_points_decode(o.info) ==> point_affine(commit_sum_of(o.info)@) is Some
}

/// The garbler share recovered from an opening: with `(x, odd)` the affine
/// form of `C`, the signature must start with `x`, and the share is
/// `s' − s` (negated when `odd`), `s'` the completed and `s` the evaluator
/// scalar.
pub open spec fn gsv_extracted(o: GsvAdaptorOpening) -> Result<nat, GsvAdaptorError> {
    if !info_points_decode(o.info) {
        Err(GsvAdaptorError::BadPoint)
    } else {
        match point_affine(commit_sum_of(o.info)@) {
            None => Err(GsvAdaptorError::BadPoint),
            Some((x, odd)) => if o.completed_sig@.subrange(0, 32) != x@ {
                Err(GsvAdaptorError::BadSignature("unexpected nonce value"))
            } else {
                let n = curve_order() as int;
                let diff = (fr_of(o.completed_sig@.subrange(32, 64)) - fr_of(o.info.evaluator_s@))
                    % n;
                Ok(
                    if odd {
                        ((0 - diff) % n) as nat
                    } else {
                        diff as nat
                    },
                )
            },
        }
    }
}

/// The 32 big-endian bytes of `v` (for `v < 2^256`).
pub open spec fn be32_bytes(v: nat) -> Seq<u8>
    decreases 32nat,
{
    be_bytes(v, 32)
}

/// The `len` big-endian bytes of `v`, most significant first.
pub open spec fn be_bytes(v: nat, len: nat) -> Seq<u8>
    decreases len,
{
    if len == 0 {
        Seq::empty()
    } else {
        be_bytes(v / 256, (len - 1) as nat).push((v % 256) as u8)
    }
}

proof fn lemma_be_bytes_value(v: nat, len: nat)
    requires
        v < vstd::arithmetic::power::pow(256, len) ,
    ensures
        be_bytes(v, len).len() == len,
        be_value(be_bytes(v, len)) == v,
    decreases len,
{
    vstd::arithmetic::power::lemma_pow_positive(256, len);
    if len > 0 {
        vstd::arithmetic::power::lemma_pow_adds(256, (len - 1) as nat, 1);
        vstd::arithmetic::power::lemma_pow1(256);
        let p = vstd::arithmetic::power::pow(256, (len - 1) as nat);
        assert(v / 256 < p) by {
            vstd::arithmetic::div_mod::lemma_div_is_ordered_by_denominator(v as int, 1, 256);
            vstd::arithmetic::div_mod::lemma_fundamental_div_mod(v as int, 256);
            assert(v < p * 256) by (nonlinear_arith)
                requires
                    v < vstd::arithmetic::power::pow(256, len),
                    vstd::arithmetic::power::pow(256, len) == p * 256,
            ;
            vstd::arithmetic::div_mod::lemma_div_by_multiple_is_strongly_ordered(
                v as int,
                (p * 256) as int,
                p as int,
                256,
            );
        }
        lemma_be_bytes_value(v / 256, (len - 1) as nat);
        let s = be_bytes(v, len);
        assert(s.drop_last() =~= be_bytes(v / 256, (len - 1) as nat));
        vstd::arithmetic::div_mod::lemma_fundamental_div_mod(v as int, 256);
        assert(s.last() as nat == v % 256);
        assert(be_value(s) == be_value(s.drop_last()) * 256 + (s.last() as nat));
        assert(v == (v / 256) * 256 + v % 256) by (nonlinear_arith)
            requires
                v == 256 * (v / 256) + v % 256,
        ;
    } else {
        vstd::arithmetic::power::lemma_pow0(256);
    }
}

proof fn lemma_be_value_bound(b: Seq<u8>)
    ensures
        be_value(b) < vstd::arithmetic::power::pow(256, b.len()),
    decreases b.len(),
{
    vstd::arithmetic::power::lemma_pow_positive(256, b.len());
    if b.len() > 0 {
        lemma_be_value_bound(b.drop_last());
        vstd::arithmetic::power::lemma_pow_adds(256, (b.len() - 1) as nat, 1);
        vstd::arithmetic::power::lemma_pow1(256);
        let p = vstd::arithmetic::power::pow(256, (b.len() - 1) as nat);
        let q = be_value(b.drop_last());
        assert(q * 256 + (b.last() as nat) < p * 256) by (nonlinear_arith)
            requires
                q < p,
                (b.last() as nat) < 256,
        ;
    }
}

/// Every scalar below the curve order is the value of some 32-byte array.
pub(crate) proof fn lemma_scalar_has_be32(v: nat)
    requires
        v < curve_order(),
    ensures
        exists|a: [u8; 32]| #[trigger] be_value(a@) == v,
{
    vstd::arithmetic::power::lemma_pow1(256);
    vstd::arithmetic::power::lemma_pow_adds(256, 1, 1);
    assert(vstd::arithmetic::power::pow(256, 2) == 0x1_0000nat) by (nonlinear_arith)
        requires
            vstd::arithmetic::power::pow(256, 2) == vstd::arithmetic::power::pow(256, 1)
                * vstd::arithmetic::power::pow(256, 1),
            vstd::arithmetic::power::pow(256, 1) == 0x100nat,
    ;
    vstd::arithmetic::power::lemma_pow_adds(256, 2, 2);
    assert(vstd::arithmetic::power::pow(256, 4) == 0x1_0000_0000nat) by (nonlinear_arith)
        requires
            vstd::arithmetic::power::pow(256, 4) == vstd::arithmetic::power::pow(256, 2)
                * vstd::arithmetic::power::pow(256, 2),
            vstd::arithmetic::power::pow(256, 2) == 0x1_0000nat,
    ;
    vstd::arithmetic::power::lemma_pow_adds(256, 4, 4);
    assert(vstd::arithmetic::power::pow(256, 8) == 0x1_0000_0000_0000_0000nat) by (nonlinear_arith)
        requires
            vstd::arithmetic::power::pow(256, 8) == vstd::arithmetic::power::pow(256, 4)
                * vstd::arithmetic::power::pow(256, 4),
            vstd::arithmetic::power::pow(256, 4) == 0x1_0000_0000nat,
    ;
    vstd::arithmetic::power::lemma_pow_adds(256, 8, 8);
    assert(vstd::arithmetic::power::pow(256, 16) == 0x1_0000_0000_0000_0000_0000_0000_0000_0000nat) by (nonlinear_arith)
        requires
            vstd::arithmetic::power::pow(256, 16) == vstd::arithmetic::power::pow(256, 8)
                * vstd::arithmetic::power::pow(256, 8),
            vstd::arithmetic::power::pow(256, 8) == 0x1_0000_0000_0000_0000nat,
    ;
    vstd::arithmetic::power::lemma_pow_adds(256, 16, 16);
    assert(vstd::arithmetic::power::pow(256, 32) == 0x1_0000_0000_0000_0000_0000_0000_0000_0000_0000_0000_0000_0000_0000_0000_0000_0000nat) by (nonlinear_arith)
        requires
            vstd::arithmetic::power::pow(256, 32) == vstd::arithmetic::power::pow(256, 16)
                * vstd::arithmetic::power::pow(256, 16),
            vstd::arithmetic::power::pow(256, 16) == 0x1_0000_0000_0000_0000_0000_0000_0000_0000nat,
    ;
    lemma_be_bytes_value(v, 32);
    let b = be_bytes(v, 32);
    crate::wire::lemma_view_of_arr32(b);
    let a = crate::wire::arr32(b);
    assert(be_value(a@) == v);
}

/// A 32-byte string is the big-endian encoding of its value.
pub(crate) proof fn lemma_bytes_are_be32_of_value(b: Seq<u8>)
    requires
        b.len() == 32,
    ensures
        b == be32_bytes(be_value(b)),
{
    lemma_be_value_bound(b);
    lemma_be_bytes_value(be_value(b), 32);
    crate::phase_b::adaptor::lemma_be_value_injective(b, be32_bytes(be_value(b)));
}

impl GsvAdaptorOpening {
    /// Whether extraction is defined for this opening ([`gsv_extractable`]).
    pub fn is_extractable(&self) -> (ok: bool)
        ensures
            ok == gsv_extractable(*self),
    {
        if !point_decodes(&self.info.garbler_commit) || !point_decodes(
            &self.info.evaluator_nonce_commit,
        ) {
            return true;
        }
        let sum = add_points(&self.info.evaluator_nonce_commit, &self.info.garbler_commit);
        affine_parts(&sum).is_some()
    }

    /// Recover the garbler share, big-endian.
    pub fn extract_fr_be32(&self) -> (r: Result<[u8; 32], GsvAdaptorError>)
        requires
            gsv_extractable(*self),
        ensures
            match gsv_extracted(*self) {
                Ok(v) => r is Ok && r->Ok_0@ == be32_bytes(v),
                Err(e) => r == Err::<[u8; 32], GsvAdaptorError>(e),
            },
    {
        if !point_decodes(&self.info.garbler_commit) || !point_decodes(
            &self.info.evaluator_nonce_commit,
        ) {
            return Err(GsvAdaptorError::BadPoint);
        }
        let sum = add_points(&self.info.evaluator_nonce_commit, &self.info.garbler_commit);
        let (expected, odd) = match affine_parts(&sum) {
            Some(parts) => parts,
            None => return Err(GsvAdaptorError::BadPoint),
        };
        let nonce = copy_array32(vstd::slice::slice_subrange(self.completed_sig.as_slice(), 0, 32));
        if !crate::hashing::eq32(&nonce, &expected) {
            proof {
                if nonce@ == expected@ {
                    lemma_arr32_of_view(nonce);
                    lemma_arr32_of_view(expected);
                }
            }
            return Err(GsvAdaptorError::BadSignature("unexpected nonce value"));
        }
        let garbler_s = copy_array32(
            vstd::slice::slice_subrange(self.completed_sig.as_slice(), 32, 64),
        );
        let diff = fr_sub(&garbler_s, &self.info.evaluator_s);
        let share = if odd {
            fr_neg(&diff)
        } else {
            diff
        };
        proof {
            let n = curve_order() as int;
            assert(be_value(diff@) < n);
            vstd::arithmetic::div_mod::lemma_small_mod(be_value(diff@), curve_order());
            lemma_bytes_are_be32_of_value(share@);
        }
        Ok(share)
    }
}

/// The label material of an opening whose share is `v`.
pub open spec fn gsv_label_material_of(instance_id: u32, v: nat) -> [u8; 32] {
    sha256_of(TAG_GSV_ADAPTOR_LABELS@ + spec_u32_to_le_bytes(instance_id) + be32_bytes(v))
}

/// The domain-separated message bound to a claim hash.
pub open spec fn gsv_message_of(public_inputs_hash: [u8; 32]) -> [u8; 32] {
    sha256_of(TAG_GSV_ADAPTOR_MESSAGE@ + public_inputs_hash@)
}

impl GsvAdaptorOpening {
    /// Domain-separated message hash bound to the claim.
    pub fn claim_message_hash(public_inputs_hash: &[u8; 32]) -> (m: [u8; 32])
        ensures
            m == gsv_message_of(*public_inputs_hash),
    {
        let mut buf: Vec<u8> = Vec::new();
        append_bytes(&mut buf, &TAG_GSV_ADAPTOR_MESSAGE);
        append_bytes(&mut buf, public_inputs_hash);
        sha256(buf.as_slice())
    }

    /// Recover the garbler share, big-endian; `None` when the commitment sum is
    /// at infinity (where extraction is undefined).
    pub fn checked_extract_fr_be32(&self) -> (r: Option<Result<[u8; 32], GsvAdaptorError>>)
        ensures
            r is None <==> !gsv_extractable(*self),
            r matches Some(x) ==> match gsv_extracted(*self) {
                Ok(v) => x is Ok && x->Ok_0@ == be32_bytes(v),
                Err(e) => x == Err::<[u8; 32], GsvAdaptorError>(e),
            },
    {
        if !self.is_extractable() {
            return None;
        }
        Some(self.extract_fr_be32())
    }

    /// Recover the garbler share, little-endian (the byte order of share bundles).
    pub fn extract_fr_le32(&self) -> (r: Result<[u8; 32], GsvAdaptorError>)
        requires
            gsv_extractable(*self),
        ensures
            match gsv_extracted(*self) {
                Ok(v) => r is Ok && r->Ok_0@ == be32_bytes(v).reverse(),
                Err(e) => r == Err::<[u8; 32], GsvAdaptorError>(e),
            },
    {
        let be = match self.extract_fr_be32() {
            Ok(b) => b,
            Err(e) => return Err(e),
        };
        let mut le = [0u8; 32];
        let mut i: usize = 0;
        while i < 32
            invariant
                0 <= i <= 32,
                forall|j: int| 0 <= j < i ==> le@[j] == be@[31 - j],
            decreases 32 - i,
        {
            le[i] = be[31 - i];
            i = i + 1;
        }
        proof {
            assert(le@ =~= be@.reverse());
        }
        Ok(le)
    }

    /// Little-endian share; `None` when extraction is undefined.
    pub fn checked_extract_fr_le32(&self) -> (r: Option<Result<[u8; 32], GsvAdaptorError>>)
        ensures
            r is None <==> !gsv_extractable(*self),
            r matches Some(x) ==> match gsv_extracted(*self) {
                Ok(v) => x is Ok && x->Ok_0@ == be32_bytes(v).reverse(),
                Err(e) => x == Err::<[u8; 32], GsvAdaptorError>(e),
            },
    {
        if !self.is_extractable() {
            return None;
        }
        Some(self.extract_fr_le32())
    }

    /// Label material for the Phase C seed: a domain-separated hash of the
    /// instance and the big-endian share.
    pub fn derive_label_material(&self) -> (r: Result<[u8; 32], GsvAdaptorError>)
        requires
            gsv_extractable(*self),
        ensures
            match gsv_extracted(*self) {
                Ok(v) => r == Ok::<[u8; 32], GsvAdaptorError>(
                    gsv_label_material_of(self.instance_id, v),
                ),
                Err(e) => r == Err::<[u8; 32], GsvAdaptorError>(e),
            },
    {
        let fr_be = match self.extract_fr_be32() {
            Ok(b) => b,
            Err(e) => return Err(e),
        };
        let mut buf: Vec<u8> = Vec::new();
        append_bytes(&mut buf, &TAG_GSV_ADAPTOR_LABELS);
        let id = u32_to_le_bytes(self.instance_id);
        append_bytes(&mut buf, id.as_slice());
        append_bytes(&mut buf, &fr_be);
        proof {
            assert(buf@ =~= TAG_GSV_ADAPTOR_LABELS@ + spec_u32_to_le_bytes(self.instance_id)
                + fr_be@);
        }
        Ok(sha256(buf.as_slice()))
    }

    /// Label material; `None` when extraction is undefined.
    pub fn checked_derive_label_material(&self) -> (r: Option<Result<[u8; 32], GsvAdaptorError>>)
        ensures
            r is None <==> !gsv_extractable(*self),
            r matches Some(x) ==> match gsv_extracted(*self) {
                Ok(v) => x == Ok::<[u8; 32], GsvAdaptorError>(
                    gsv_label_material_of(self.instance_id, v),
                ),
                Err(e) => x == Err::<[u8; 32], GsvAdaptorError>(e),
            },
    {
        if !self.is_extractable() {
            return None;
        }
        Some(self.derive_label_material())
    }
}

// ---------------------------------------------------------------------------
// Creation
// ---------------------------------------------------------------------------

/// The BIP340 challenge hash of nonce x, public-key x and message.
pub open spec fn bip340_challenge(rx: [u8; 32], px: [u8; 32], message: [u8; 32]) -> [u8; 32] {
    let t = sha256_of(TAG_BIP340_CHALLENGE@);
    sha256_of(t@ + t@ + rx@ + px@ + message@)
}

/// The evaluator's partial scalar for a nonce: with `P = garbler_commit +
/// nonce·G` (negated together with the nonce when `P.y` is odd) and `e` the
/// challenge on `P.x`, it is `nonce + e·sk`.
pub open spec fn evaluator_scalar(
    garbler_commit: [u8; 33],
    nonce: [u8; 32],
    secret: [u8; 32],
    evaluator_xonly: [u8; 32],
    message: [u8; 32],
) -> nat {
    let n = curve_order() as int;
    let public_sum = point_sum(garbler_commit@, generator_multiple(nonce@)@);
    let odd = point_affine(public_sum@)->Some_0.1;
    let r = if odd {
        point_negation(public_sum@)
    } else {
        public_sum
    };
    let k = if odd {
        (0 - fr_of(nonce@)) % n
    } else {
        fr_of(nonce@) as int
    };
    let e = fr_of(bip340_challenge(point_affine(r@)->Some_0.0, evaluator_xonly, message)@);
    ((k + ((e * fr_of(secret@)) as int) % n) % n) as nat
}

/// The completed signature for the garbler share `g`: with `C = nonce_commit +
/// garbler_commit`, `R = C` and `s' = s + g`, or `R = −C` and `s' = s − g` when
/// `C.y` is odd; the signature is `R.x || s'`.
pub open spec fn completes_with_share(o: GsvAdaptorOpening, g: nat) -> bool {
    let n = curve_order() as int;
    let c = commit_sum_of(o.info);
    let odd = point_affine(c@)->Some_0.1;
    let r = if odd {
        point_negation(c@)
    } else {
        c
    };
    let s = be_value(o.info.evaluator_s@) as int;
    &&& point_affine(c@) is Some
    &&& o.completed_sig@.subrange(0, 32) == point_affine(r@)->Some_0.0@
    &&& be_value(o.completed_sig@.subrange(32, 64)) == (if odd {
        (s - g) % n
    } else {
        (s + g) % n
    })
}

/// What a successful [`GsvAdaptorOpening::create`] gives: the statement
/// binding, the evaluator key, `garbler_commit = g·G`, a nonce commitment
/// `nonce·G` with the matching evaluator scalar, and the completed signature.
pub open spec fn gsv_opening_for(
    o: GsvAdaptorOpening,
    instance_id: u32,
    claim_bytes: Seq<u8>,
    evaluator_secret: [u8; 32],
    garbler_share: [u8; 32],
) -> bool {
    &&& o.version == VERSION_GSV_ADAPTOR
    &&& o.instance_id == instance_id
    &&& o.public_inputs_hash == sha256_of(claim_bytes)
    &&& o.message_hash == gsv_message_of(o.public_inputs_hash)
    &&& point_affine(generator_multiple(evaluator_secret@)@) is Some
    &&& o.evaluator_xonly == point_affine(generator_multiple(evaluator_secret@)@)->Some_0.0
    &&& o.info.garbler_commit == generator_multiple(garbler_share@)
    &&& exists|nonce: [u8; 32]|
        {
            &&& be_value(nonce@) < curve_order()
            &&& #[trigger] generator_multiple(nonce@) == o.info.evaluator_nonce_commit
            &&& be_value(o.info.evaluator_s@) == evaluator_scalar(
                o.info.garbler_commit,
                nonce,
                evaluator_secret,
                o.evaluator_xonly,
                o.message_hash,
            )
        }
    &&& completes_with_share(o, be_value(garbler_share@))
}

/// Completing and then extracting gives the share back: `±((s ± g) − s) = g`.
proof fn lemma_share_recovered(s: int, g: int, odd: bool)
    requires
        0 <= s < curve_order(),
        0 <= g < curve_order(),
    ensures
        ({
            let n = curve_order() as int;
            let completed = if odd {
                (s - g) % n
            } else {
                (s + g) % n
            };
            let diff = (completed - s) % n;
            (if odd {
                (0 - diff) % n
            } else {
                diff
            }) == g
        }),
{
    let n = curve_order() as int;
    vstd::arithmetic::div_mod::lemma_small_mod(s as nat, n as nat);
    vstd::arithmetic::div_mod::lemma_small_mod(g as nat, n as nat);
    if odd {
        vstd::arithmetic::div_mod::lemma_sub_mod_noop(s - g, s, n);
        assert(s - g - s == 0 - g);
        vstd::arithmetic::div_mod::lemma_sub_mod_noop(0, 0 - g, n);
        vstd::arithmetic::div_mod::lemma_small_mod(0, n as nat);
        assert(0 - (0 - g) == g);
    } else {
        vstd::arithmetic::div_mod::lemma_sub_mod_noop(s + g, s, n);
        assert(s + g - s == g);
    }
}

/// The x coordinate of an affine point, for an encoded point known not to be
/// at infinity.
fn affine_x(p: &[u8; 33]) -> (x: [u8; 32])
    requires
        is_point_encoding(p@),
        point_affine(p@) is Some,
    ensures
        x == point_affine(p@)->Some_0.0,
{
    match affine_parts(p) {
        Some((x, _)) => x,
        None => [0u8; 32],
    }
}

impl GsvAdaptorOpening {
    /// Create the incomplete adaptor information and the completed signature
    /// that reveals `garbler_share` (a fresh nonce is drawn, then
    /// [`Self::create_with_nonce`] does the rest). Fails with `BadPoint` only
    /// if the drawn nonce puts a commitment sum at infinity.
    pub fn create(
        instance_id: u32,
        claim_bytes: &[u8],
        evaluator_secret: &[u8; 32],
        garbler_share: &[u8; 32],
    ) -> (r: Result<Self, GsvAdaptorError>)
        requires
            is_secret_scalar(*evaluator_secret),
            be_value(garbler_share@) < curve_order(),
        ensures
            r matches Err(e) ==> e == GsvAdaptorError::BadPoint,
            r matches Ok(o) ==> {
                &&& gsv_opening_for(o, instance_id, claim_bytes@, *evaluator_secret, *garbler_share)
                &&& gsv_extractable(o)
                &&& gsv_extracted(o) == Ok::<nat, GsvAdaptorError>(be_value(garbler_share@))
            },
    {
        let nonce = fr_random();
        Self::create_with_nonce(instance_id, claim_bytes, evaluator_secret, garbler_share, &nonce)
    }

    /// Create the incomplete adaptor information and the completed signature
    /// that reveals `garbler_share`, with the evaluator nonce `nonce`. Fails
    /// with `BadPoint` exactly when `g·G + nonce·G` (either order of the sum)
    /// is at infinity.
    pub fn create_with_nonce(
        instance_id: u32,
        claim_bytes: &[u8],
        evaluator_secret: &[u8; 32],
        garbler_share: &[u8; 32],
        nonce: &[u8; 32],
    ) -> (r: Result<Self, GsvAdaptorError>)
        requires
            is_secret_scalar(*evaluator_secret),
            be_value(garbler_share@) < curve_order(),
            be_value(nonce@) < curve_order(),
        ensures
            r is Err <==> {
                ||| point_affine(
                    point_sum(generator_multiple(garbler_share@)@, generator_multiple(nonce@)@)@,
                ) is None
                ||| point_affine(
                    point_sum(generator_multiple(nonce@)@, generator_multiple(garbler_share@)@)@,
                ) is None
            },
            r matches Err(e) ==> e == GsvAdaptorError::BadPoint,
            r matches Ok(o) ==> {
                &&& o.info.evaluator_nonce_commit == generator_multiple(nonce@)
                &&& be_value(o.info.evaluator_s@) == evaluator_scalar(
                    o.info.garbler_commit,
                    *nonce,
                    *evaluator_secret,
                    o.evaluator_xonly,
                    o.message_hash,
                )
                &&& gsv_opening_for(o, instance_id, claim_bytes@, *evaluator_secret, *garbler_share)
                &&& gsv_extractable(o)
                &&& gsv_extracted(o) == Ok::<nat, GsvAdaptorError>(be_value(garbler_share@))
            },
    {
        let n = Ghost(curve_order() as int);
        let public_inputs_hash = sha256(claim_bytes);
        let message_hash = Self::claim_message_hash(&public_inputs_hash);
        let eval_pub = mul_generator(evaluator_secret);
        proof {
            vstd::arithmetic::div_mod::lemma_small_mod(
                be_value(evaluator_secret@),
                curve_order(),
            );
        }
        let evaluator_xonly = affine_x(&eval_pub);
        let garbler_commit = mul_generator(garbler_share);

        // Evaluator side: nonce, its commitment, and the partial scalar.
        let nonce0 = *nonce;
        let nonce_commit = mul_generator(&nonce0);
        let public_sum = add_points(&garbler_commit, &nonce_commit);
        let (_, odd) = match affine_parts(&public_sum) {
            Some(parts) => parts,
            None => return Err(GsvAdaptorError::BadPoint),
        };
        let (r_point, signing_nonce) = if odd {
            (negate_point(&public_sum), fr_neg(&nonce0))
        } else {
            (public_sum, nonce0)
        };
        let rx = affine_x(&r_point);
        let tag_hash = sha256(&TAG_BIP340_CHALLENGE);
        let mut buf: Vec<u8> = Vec::new();
        append_bytes(&mut buf, &tag_hash);
        append_bytes(&mut buf, &tag_hash);
        append_bytes(&mut buf, &rx);
        append_bytes(&mut buf, &evaluator_xonly);
        append_bytes(&mut buf, &message_hash);
        let challenge = sha256(buf.as_slice());
        let e = fr_reduce(&challenge);
        let e_sk = fr_mul(&e, evaluator_secret);
        let evaluator_s = fr_add(&signing_nonce, &e_sk);
        proof {
            assert(buf@ =~= tag_hash@ + tag_hash@ + rx@ + evaluator_xonly@ + message_hash@);
            vstd::arithmetic::div_mod::lemma_small_mod(be_value(e@), curve_order());
            vstd::arithmetic::div_mod::lemma_small_mod(be_value(e_sk@), curve_order());
            vstd::arithmetic::div_mod::lemma_small_mod(be_value(nonce0@), curve_order());
            if odd {
                assert(be_value(signing_nonce@) < n@);
                vstd::arithmetic::div_mod::lemma_small_mod(be_value(signing_nonce@), curve_order());
            }
        }

        // Garbler side: complete the signature with the share.
        let commit_sum = add_points(&nonce_commit, &garbler_commit);
        let (_, sum_odd) = match affine_parts(&commit_sum) {
            Some(parts) => parts,
            None => return Err(GsvAdaptorError::BadPoint),
        };
        let (r_sig, s_sig) = if sum_odd {
            (negate_point(&commit_sum), fr_sub(&evaluator_s, garbler_share))
        } else {
            (commit_sum, fr_add(&evaluator_s, garbler_share))
        };
        let sig_x = affine_x(&r_sig);
        let mut completed_sig = [0u8; 64];
        let mut i: usize = 0;
        while i < 32
            invariant
                0 <= i <= 32,
                forall|j: int| 0 <= j < i ==> completed_sig@[j] == sig_x@[j],
                forall|j: int| 32 <= j < 32 + i ==> completed_sig@[j] == s_sig@[j - 32],
            decreases 32 - i,
        {
            completed_sig[i] = sig_x[i];
            completed_sig[32 + i] = s_sig[i];
            i = i + 1;
        }
        let o = GsvAdaptorOpening {
            version: VERSION_GSV_ADAPTOR,
            instance_id,
            evaluator_xonly,
            message_hash,
            public_inputs_hash,
            info: GsvAdaptorInfoBytes {
                garbler_commit,
                evaluator_nonce_commit: nonce_commit,
                evaluator_s,
            },
            completed_sig,
        };
        proof {
            assert(completed_sig@.subrange(0, 32) =~= sig_x@);
            assert(completed_sig@.subrange(32, 64) =~= s_sig@);
            vstd::arithmetic::div_mod::lemma_small_mod(
                be_value(garbler_share@),
                curve_order(),
            );
            vstd::arithmetic::div_mod::lemma_small_mod(be_value(evaluator_s@), curve_order());
            vstd::arithmetic::div_mod::lemma_small_mod(be_value(s_sig@), curve_order());
            assert(be_value(nonce0@) < curve_order());
            assert(generator_multiple(nonce0@) == o.info.evaluator_nonce_commit);
            assert(completes_with_share(o, be_value(garbler_share@)));
            lemma_share_recovered(
                be_value(evaluator_s@) as int,
                be_value(garbler_share@) as int,
                sum_odd,
            );
        }
        Ok(o)
    }

    /// Create with a freshly drawn garbler share; returns the share too.
    pub fn create_ephemeral(instance_id: u32, claim_bytes: &[u8], evaluator_secret: &[u8; 32]) -> (r:
        Result<(Self, [u8; 32]), GsvAdaptorError>)
        requires
            is_secret_scalar(*evaluator_secret),
        ensures
            r matches Err(e) ==> e == GsvAdaptorError::BadPoint,
            r matches Ok((o, g)) ==> {
                &&& be_value(g@) < curve_order()
                &&& gsv_opening_for(o, instance_id, claim_bytes@, *evaluator_secret, g)
                &&& gsv_extractable(o)
                &&& gsv_extracted(o) == Ok::<nat, GsvAdaptorError>(be_value(g@))
            },
    {
        let garbler_share = fr_random();
        match Self::create(instance_id, claim_bytes, evaluator_secret, &garbler_share) {
            Ok(o) => Ok((o, garbler_share)),
            Err(e) => Err(e),
        }
    }
}

} // verus!
