//! Versioned Assert witness packing.
//!
//! Public statement + extractable opening (+ optional share bundle, optional
//! ciphertext commitment), published so any challenger who sees the Assert can
//! Evaluate without out-of-band state.

use crate::hashing::{append_bytes, eq32, sha256, sha256_of};
use crate::opening::{AssertOpening, LabelOpening};
use crate::phase_a::opening::DirectSeedOpening;
use crate::phase_b::opening::AdaptorOpening;
use crate::phase_c::reconstruct::{append_share_list, share_list_bytes, ShareBundle, ShareBundleView};
use crate::wire::{
    arr32, arr32_at, le_u32_at, lemma_arr32_of_view, lemma_view_of_arr32, to_array32, Cursor,
};
use vstd::bytes::{
    lemma_auto_spec_u32_to_from_le_bytes, spec_u32_from_le_bytes, spec_u32_to_le_bytes,
    u32_to_le_bytes,
};
use crate::text::{decimal, push_decimal};
use vstd::prelude::*;
use vstd::string::StringExecFns;

verus! {

/// Magic prefix: Beacon Assert Compact (`"BEAC"`).
pub const MAGIC: [u8; 4] = [0x42, 0x45, 0x41, 0x43];

/// Wire format version of this packing (not the opening version).
pub const FORMAT_V1: u8 = 1;

/// Opening tag of a direct-seed opening.
pub const OPENING_DIRECT: u8 = 1;

/// Opening tag of an adaptor opening.
pub const OPENING_ADAPTOR: u8 = 2;

/// Public statement always visible with the Assert.
#[derive(Clone, Copy, Debug, PartialEq, Eq)]
pub struct PublicStatement {
    /// Opening protocol: 1 = direct seed, 2 = adaptor (matches opening versions).
    pub protocol_version: u8,
    /// Evaluation instance `a`.
    pub instance_id: u32,
    /// `SHA256(claim_bytes)`: binds the public statement.
    pub public_inputs_hash: [u8; 32],
    /// Claim / state-transition id; `SHA256(claim_bytes)` when unset.
    pub claim_id: [u8; 32],
    /// Disprove hashlock commitment `H(L*)` (must match the connector leaf).
    pub h_l_invalid: [u8; 32],
}

/// Packed Assert witness: statement + extractable opening + optional check-set bundle.
#[derive(Clone, Debug, PartialEq, Eq)]
pub struct AssertWitnessV1 {
    pub statement: PublicStatement,
    /// Cleartext public claim / public inputs.
    pub claim_bytes: Vec<u8>,
    pub opening: AssertOpening,
    pub share_bundle: Option<ShareBundle>,
    /// Off-chain garbled ciphertext commitment for `statement.instance_id`.
    pub ciphertext_hash: Option<[u8; 32]>,
}

/// The mathematical content of an [`AssertWitnessV1`].
pub struct WitnessView {
    pub statement: PublicStatement,
    pub claim_bytes: Seq<u8>,
    pub opening: AssertOpening,
    pub share_bundle: Option<ShareBundleView>,
    pub ciphertext_hash: Option<[u8; 32]>,
}

/// The view of an optional share bundle.
pub open spec fn bundle_view(b: Option<ShareBundle>) -> Option<ShareBundleView> {
    match b {
        Some(x) => Some(x@),
        None => None,
    }
}

impl View for AssertWitnessV1 {
    type V = WitnessView;

    open spec fn view(&self) -> WitnessView {
        WitnessView {
            statement: self.statement,
            claim_bytes: self.claim_bytes@,
            opening: self.opening,
            share_bundle: bundle_view(self.share_bundle),
            ciphertext_hash: self.ciphertext_hash,
        }
    }
}

#[derive(Debug, Clone, Copy, PartialEq, Eq)]
pub enum WitnessError {
    BadMagic,
    BadFormat,
    Truncated,
    BadOpeningTag(u8),
    OpeningMismatch,
    ClaimHashMismatch,
    HashlockMismatch,
    CiphertextHashMismatch,
}

/// The message of a witness error.
pub open spec fn witness_error_text(e: WitnessError) -> Seq<char> {
    match e {
        WitnessError::BadMagic => "assert witness: bad magic"@,
        WitnessError::BadFormat => "assert witness: unsupported format"@,
        WitnessError::Truncated => "assert witness: truncated"@,
        WitnessError::BadOpeningTag(t) => "assert witness: bad opening tag "@ + decimal(t as nat),
        WitnessError::OpeningMismatch => "assert witness: opening does not match statement"@,
        WitnessError::ClaimHashMismatch => "assert witness: claim_bytes hash mismatch"@,
        WitnessError::HashlockMismatch => "assert witness: h_l_invalid does not match connector"@,
        WitnessError::CiphertextHashMismatch =>
            "assert witness: ciphertext_hash does not match store"@,
    }
}

impl WitnessError {
    /// The error's message.
    pub fn to_string(&self) -> (s: String)
        ensures
            s@ == witness_error_text(*self),
    {
        match self {
            WitnessError::BadMagic => String::from_str("assert witness: bad magic"),
            WitnessError::BadFormat => String::from_str("assert witness: unsupported format"),
            WitnessError::Truncated => String::from_str("assert witness: truncated"),
            WitnessError::BadOpeningTag(t) => {
                let mut s = String::from_str("assert witness: bad opening tag ");
                push_decimal(&mut s, *t as u64);
                s
            },
            WitnessError::OpeningMismatch => String::from_str(
                "assert witness: opening does not match statement",
            ),
            WitnessError::ClaimHashMismatch => String::from_str(
                "assert witness: claim_bytes hash mismatch",
            ),
            WitnessError::HashlockMismatch => String::from_str(
                "assert witness: h_l_invalid does not match connector",
            ),
            WitnessError::CiphertextHashMismatch => String::from_str(
                "assert witness: ciphertext_hash does not match store",
            ),
        }
    }
}

// ---------------------------------------------------------------------------
// Encoding
// ---------------------------------------------------------------------------

/// Little-endian bytes of a `u32`.
pub open spec fn le32(x: u32) -> Seq<u8> {
    spec_u32_to_le_bytes(x)
}

/// Statement bytes: `version || instance (LE) || inputs hash || claim id || H(L*)`.
pub open spec fn statement_bytes(s: PublicStatement) -> Seq<u8> {
    seq![s.protocol_version] + le32(s.instance_id) + s.public_inputs_hash@ + s.claim_id@
        + s.h_l_invalid@
}

/// Opening bytes, starting with the opening tag.
pub open spec fn opening_bytes(o: AssertOpening) -> Seq<u8> {
    match o {
        AssertOpening::Direct(d) => seq![OPENING_DIRECT, d.version] + le32(d.instance_id) + d.seed@
            + d.public_inputs_hash@,
        AssertOpening::Adaptor(a) => seq![OPENING_ADAPTOR, a.version] + le32(a.instance_id)
            + a.signer_xonly@ + a.adaptor_point@ + a.nonce_x@ + a.adapted_s@ + a.completed_s@
            + a.message@ + a.public_inputs_hash@,
    }
}

/// Share bundle bytes: `n || threshold || adaptor_index || count || shares` (LE u32s).
pub open spec fn bundle_bytes(b: ShareBundleView) -> Seq<u8> {
    le32(b.n) + le32(b.threshold) + le32(b.adaptor_index) + le32(b.check_shares.len() as u32)
        + share_list_bytes(b.check_shares)
}

/// Optional bundle with its presence flag.
pub open spec fn bundle_field_bytes(b: Option<ShareBundleView>) -> Seq<u8> {
    match b {
        None => seq![0u8],
        Some(x) => seq![1u8] + bundle_bytes(x),
    }
}

/// Optional ciphertext hash with its presence flag.
pub open spec fn ciphertext_field_bytes(h: Option<[u8; 32]>) -> Seq<u8> {
    match h {
        None => seq![0u8],
        Some(x) => seq![1u8] + x@,
    }
}

/// Everything before the trailing ciphertext field.
pub open spec fn witness_body_bytes(w: WitnessView) -> Seq<u8> {
    MAGIC@ + seq![FORMAT_V1] + statement_bytes(w.statement) + le32(w.claim_bytes.len() as u32)
        + w.claim_bytes + opening_bytes(w.opening) + bundle_field_bytes(w.share_bundle)
}

/// The packed witness: `MAGIC || FORMAT || statement || claim || opening || bundle || ct`.
pub open spec fn witness_bytes(w: WitnessView) -> Seq<u8> {
    witness_body_bytes(w) + ciphertext_field_bytes(w.ciphertext_hash)
}

/// Whether a witness can be encoded (its lengths fit the `u32` length fields).
pub open spec fn encodable(w: WitnessView) -> bool {
    &&& w.claim_bytes.len() <= u32::MAX
    &&& match w.share_bundle {
        Some(b) => b.check_shares.len() <= u32::MAX,
        None => true,
    }
}

/// Whether the opening agrees with the statement (version, instance, inputs hash).
pub open spec fn opening_matches(w: WitnessView) -> bool {
    &&& w.opening.opening_version() == w.statement.protocol_version
    &&& w.opening.opening_instance() == w.statement.instance_id
    &&& w.opening.opening_inputs_hash() == w.statement.public_inputs_hash
}

/// Whether the claim bytes hash to the statement's public-inputs hash.
pub open spec fn claim_hash_matches(w: WitnessView) -> bool {
    sha256_of(w.claim_bytes) == w.statement.public_inputs_hash
}

// ---------------------------------------------------------------------------
// Decoding (specification)
// ---------------------------------------------------------------------------

/// Offset of the claim bytes: magic, format, version, instance, three hashes, claim length.
pub open spec fn claim_offset() -> int {
    110
}

/// Parse an opening (tag first) at `p`; returns it and the position after it.
pub open spec fn parse_opening(b: Seq<u8>, p: int) -> Result<(AssertOpening, int), WitnessError> {
    if b.len() < p + 1 {
        Err(WitnessError::Truncated)
    } else if b[p] == OPENING_DIRECT {
        if b.len() < p + 70 {
            Err(WitnessError::Truncated)
        } else {
            Ok(
                (
                    AssertOpening::Direct(
                        DirectSeedOpening {
                            version: b[p + 1],
                            instance_id: le_u32_at(b, p + 2),
                            seed: arr32_at(b, p + 6),
                            public_inputs_hash: arr32_at(b, p + 38),
                        },
                    ),
                    p + 70,
                ),
            )
        }
    } else if b[p] == OPENING_ADAPTOR {
        if b.len() < p + 230 {
            Err(WitnessError::Truncated)
        } else {
            Ok(
                (
                    AssertOpening::Adaptor(
                        AdaptorOpening {
                            version: b[p + 1],
                            instance_id: le_u32_at(b, p + 2),
                            signer_xonly: arr32_at(b, p + 6),
                            adaptor_point: arr32_at(b, p + 38),
                            nonce_x: arr32_at(b, p + 70),
                            adapted_s: arr32_at(b, p + 102),
                            completed_s: arr32_at(b, p + 134),
                            message: arr32_at(b, p + 166),
                            public_inputs_hash: arr32_at(b, p + 198),
                        },
                    ),
                    p + 230,
                ),
            )
        }
    } else {
        Err(WitnessError::BadOpeningTag(b[p]))
    }
}

/// The `count` shares stored from position `p`, 36 bytes each.
pub open spec fn parse_shares(b: Seq<u8>, p: int, count: nat) -> Seq<(u32, [u8; 32])> {
    Seq::new(count, |i: int| (le_u32_at(b, p + 36 * i), arr32_at(b, p + 36 * i + 4)))
}

/// Parse a share bundle at `p`; returns it and the position after it.
pub open spec fn parse_bundle(b: Seq<u8>, p: int) -> Result<(ShareBundleView, int), WitnessError> {
    if b.len() < p + 16 {
        Err(WitnessError::Truncated)
    } else {
        let count = le_u32_at(b, p + 12) as nat;
        if b.len() < p + 16 + 36 * count {
            Err(WitnessError::Truncated)
        } else {
            Ok(
                (
                    ShareBundleView {
                        n: le_u32_at(b, p),
                        threshold: le_u32_at(b, p + 4),
                        adaptor_index: le_u32_at(b, p + 8),
                        check_shares: parse_shares(b, p + 16, count),
                    },
                    p + 16 + 36 * count,
                ),
            )
        }
    }
}

/// Parse the optional bundle field (flag first) at `p`.
pub open spec fn parse_bundle_field(b: Seq<u8>, p: int) -> Result<
    (Option<ShareBundleView>, int),
    WitnessError,
> {
    if b.len() < p + 1 {
        Err(WitnessError::Truncated)
    } else if b[p] == 0 {
        Ok((None, p + 1))
    } else if b[p] == 1 {
        match parse_bundle(b, p + 1) {
            Ok((x, q)) => Ok((Some(x), q)),
            Err(e) => Err(e),
        }
    } else {
        Err(WitnessError::BadFormat)
    }
}

/// Parse the optional trailing ciphertext field at `p`, which must end the input.
/// Blobs that stop right before it (early format) carry no ciphertext hash.
pub open spec fn parse_ciphertext_field(b: Seq<u8>, p: int) -> Result<Option<[u8; 32]>, WitnessError> {
    if p >= b.len() {
        Ok(None)
    } else if b[p] == 0 {
        if p + 1 == b.len() {
            Ok(None)
        } else {
            Err(WitnessError::BadFormat)
        }
    } else if b[p] == 1 {
        if b.len() < p + 33 {
            Err(WitnessError::Truncated)
        } else if p + 33 == b.len() {
            Ok(Some(arr32_at(b, p + 1)))
        } else {
            Err(WitnessError::BadFormat)
        }
    } else {
        Err(WitnessError::BadFormat)
    }
}

/// The statement stored in the header.
pub open spec fn parse_statement(b: Seq<u8>) -> PublicStatement {
    PublicStatement {
        protocol_version: b[5],
        instance_id: le_u32_at(b, 6),
        public_inputs_hash: arr32_at(b, 10),
        claim_id: arr32_at(b, 42),
        h_l_invalid: arr32_at(b, 74),
    }
}

/// The rest of a decode once the claim has been read and checked.
pub open spec fn parse_after_claim(b: Seq<u8>, statement: PublicStatement, claim: Seq<u8>, p: int) -> Result<
    WitnessView,
    WitnessError,
> {
    match parse_opening(b, p) {
        Err(e) => Err(e),
        Ok((opening, p1)) => match parse_bundle_field(b, p1) {
            Err(e) => Err(e),
            Ok((share_bundle, p2)) => match parse_ciphertext_field(b, p2) {
                Err(e) => Err(e),
                Ok(ciphertext_hash) => {
                    let w = WitnessView {
                        statement,
                        claim_bytes: claim,
                        opening,
                        share_bundle,
                        ciphertext_hash,
                    };
                    if opening_matches(w) {
                        Ok(w)
                    } else {
                        Err(WitnessError::OpeningMismatch)
                    }
                },
            },
        },
    }
}

/// What decoding a byte string gives: the witness, or the first error met
/// while reading it front to back.
pub open spec fn decode_witness(b: Seq<u8>) -> Result<WitnessView, WitnessError> {
    if b.len() < 4 {
        Err(WitnessError::Truncated)
    } else if b.subrange(0, 4) != MAGIC@ {
        Err(WitnessError::BadMagic)
    } else if b.len() < 5 {
        Err(WitnessError::Truncated)
    } else if b[4] != FORMAT_V1 {
        Err(WitnessError::BadFormat)
    } else if b.len() < claim_offset() {
        Err(WitnessError::Truncated)
    } else {
        let len = le_u32_at(b, 106) as int;
        if b.len() < claim_offset() + len {
            Err(WitnessError::Truncated)
        } else {
            let claim = b.subrange(claim_offset(), claim_offset() + len);
            let statement = parse_statement(b);
            if sha256_of(claim) != statement.public_inputs_hash {
                Err(WitnessError::ClaimHashMismatch)
            } else {
                parse_after_claim(b, statement, claim, claim_offset() + len)
            }
        }
    }
}

/// The view of a decode result.
pub open spec fn decode_result_view(r: Result<AssertWitnessV1, WitnessError>) -> Result<
    WitnessView,
    WitnessError,
> {
    match r {
        Ok(w) => Ok(w@),
        Err(e) => Err(e),
    }
}


// ---------------------------------------------------------------------------
// Executable encode / decode
// ---------------------------------------------------------------------------

/// Appends a length-prefixed byte string (`len (LE u32) || data`).
pub fn write_bytes(out: &mut Vec<u8>, data: &[u8])
    requires
        data@.len() <= u32::MAX,
    ensures
        final(out)@ == old(out)@ + le32(data@.len() as u32) + data@,
{
    let len = data.len() as u32;
    let le = u32_to_le_bytes(len);
    append_bytes(out, le.as_slice());
    append_bytes(out, data);
}

/// Appends a share bundle.
pub fn encode_share_bundle(out: &mut Vec<u8>, b: &ShareBundle)
    requires
        b.check_shares@.len() <= u32::MAX,
    ensures
        final(out)@ == old(out)@ + bundle_bytes(b@),
{
    let a = u32_to_le_bytes(b.n);
    append_bytes(out, a.as_slice());
    let t = u32_to_le_bytes(b.threshold);
    append_bytes(out, t.as_slice());
    let i = u32_to_le_bytes(b.adaptor_index);
    append_bytes(out, i.as_slice());
    let n = b.check_shares.len() as u32;
    let c = u32_to_le_bytes(n);
    append_bytes(out, c.as_slice());
    append_share_list(out, &b.check_shares);
    proof {
        assert(final(out)@ =~= old(out)@ + bundle_bytes(b@));
    }
}

fn encode_opening(out: &mut Vec<u8>, opening: &AssertOpening)
    ensures
        final(out)@ == old(out)@ + opening_bytes(*opening),
{
    match opening {
        AssertOpening::Direct(o) => {
            out.push(OPENING_DIRECT);
            out.push(o.version);
            let id = u32_to_le_bytes(o.instance_id);
            append_bytes(out, id.as_slice());
            append_bytes(out, &o.seed);
            append_bytes(out, &o.public_inputs_hash);
        },
        AssertOpening::Adaptor(o) => {
            out.push(OPENING_ADAPTOR);
            out.push(o.version);
            let id = u32_to_le_bytes(o.instance_id);
            append_bytes(out, id.as_slice());
            append_bytes(out, &o.signer_xonly);
            append_bytes(out, &o.adaptor_point);
            append_bytes(out, &o.nonce_x);
            append_bytes(out, &o.adapted_s);
            append_bytes(out, &o.completed_s);
            append_bytes(out, &o.message);
            append_bytes(out, &o.public_inputs_hash);
        },
    }
    proof {
        assert(final(out)@ =~= old(out)@ + opening_bytes(*opening));
    }
}

fn eq_magic(s: &[u8]) -> (r: bool)
    requires
        s@.len() == 4,
    ensures
        r == (s@ == MAGIC@),
{
    let r = s[0] == MAGIC[0] && s[1] == MAGIC[1] && s[2] == MAGIC[2] && s[3] == MAGIC[3];
    proof {
        if r {
            assert(s@ =~= MAGIC@);
        }
    }
    r
}

fn decode_opening(c: &mut Cursor) -> (r: Result<AssertOpening, WitnessError>)
    requires
        old(c).pos <= old(c).buf@.len(),
    ensures
        final(c).buf@ == old(c).buf@,
        final(c).pos <= final(c).buf@.len(),
        match parse_opening(old(c).buf@, old(c).pos as int) {
            Ok((o, p)) => r == Ok::<AssertOpening, WitnessError>(o) && final(c).pos == p,
            Err(e) => r == Err::<AssertOpening, WitnessError>(e),
        },
{
    let ghost b = c.buf@;
    let ghost p = c.pos as int;
    let tag = match c.read_u8() {
        Some(t) => t,
        None => return Err(WitnessError::Truncated),
    };
    if tag == OPENING_DIRECT {
        if c.buf.len() - c.pos < 69 {
            return Err(WitnessError::Truncated);
        }
        let version = c.read_u8().unwrap();
        let oid = c.read_u32().unwrap();
        let seed = c.read_array32().unwrap();
        let pih = c.read_array32().unwrap();
        Ok(
            AssertOpening::Direct(
                DirectSeedOpening { version, instance_id: oid, seed, public_inputs_hash: pih },
            ),
        )
    } else if tag == OPENING_ADAPTOR {
        if c.buf.len() - c.pos < 229 {
            return Err(WitnessError::Truncated);
        }
        let version = c.read_u8().unwrap();
        let oid = c.read_u32().unwrap();
        let signer_xonly = c.read_array32().unwrap();
        let adaptor_point = c.read_array32().unwrap();
        let nonce_x = c.read_array32().unwrap();
        let adapted_s = c.read_array32().unwrap();
        let completed_s = c.read_array32().unwrap();
        let message = c.read_array32().unwrap();
        let public_inputs_hash = c.read_array32().unwrap();
        Ok(
            AssertOpening::Adaptor(
                AdaptorOpening {
                    version,
                    instance_id: oid,
                    signer_xonly,
                    adaptor_point,
                    nonce_x,
                    adapted_s,
                    completed_s,
                    message,
                    public_inputs_hash,
                },
            ),
        )
    } else {
        Err(WitnessError::BadOpeningTag(tag))
    }
}

/// Reads a share bundle.
pub fn decode_share_bundle(c: &mut Cursor) -> (r: Result<ShareBundle, WitnessError>)
    requires
        old(c).pos <= old(c).buf@.len(),
    ensures
        final(c).buf@ == old(c).buf@,
        final(c).pos <= final(c).buf@.len(),
        match parse_bundle(old(c).buf@, old(c).pos as int) {
            Ok((v, p)) => r is Ok && r->Ok_0@ == v && final(c).pos == p,
            Err(e) => r == Err::<ShareBundle, WitnessError>(e),
        },
{
    let ghost b = c.buf@;
    let ghost p = c.pos as int;
    if c.buf.len() - c.pos < 16 {
        return Err(WitnessError::Truncated);
    }
    let n = c.read_u32().unwrap();
    let threshold = c.read_u32().unwrap();
    let adaptor_index = c.read_u32().unwrap();
    let count = c.read_u32().unwrap();
    let ghost start = c.pos as int;
    if ((c.buf.len() - c.pos) as u64) / 36 < count as u64 {
        proof {
            assert((b.len() - start) / 36 < count);
            assert(b.len() < start + 36 * count) by (nonlinear_arith)
                requires
                    (b.len() - start) / 36 < count,
                    b.len() >= start,
            ;
        }
        return Err(WitnessError::Truncated);
    }
    proof {
        assert(b.len() >= start + 36 * count) by (nonlinear_arith)
            requires
                (b.len() - start) / 36 >= count,
                b.len() >= start,
        ;
    }
    let mut check_shares: Vec<(u32, [u8; 32])> = Vec::new();
    let mut k: u32 = 0;
    while k < count
        invariant
            c.buf@ == b,
            0 <= k <= count,
            start + 36 * count <= b.len(),
            c.pos == start + 36 * k,
            check_shares@ =~= parse_shares(b, start, k as nat),
        decreases count - k,
    {
        proof {
            assert(start + 36 * k + 36 <= start + 36 * count) by (nonlinear_arith)
                requires
                    k < count,
            ;
        }
        let i = c.read_u32().unwrap();
        let s = c.read_array32().unwrap();
        check_shares.push((i, s));
        k = k + 1;
        proof {
            assert(check_shares@ =~= parse_shares(b, start, k as nat));
        }
    }
    Ok(ShareBundle { n, threshold, check_shares, adaptor_index })
}

fn decode_bundle_field(c: &mut Cursor) -> (r: Result<Option<ShareBundle>, WitnessError>)
    requires
        old(c).pos <= old(c).buf@.len(),
    ensures
        final(c).buf@ == old(c).buf@,
        final(c).pos <= final(c).buf@.len(),
        match parse_bundle_field(old(c).buf@, old(c).pos as int) {
            Ok((v, p)) => r is Ok && bundle_view(r->Ok_0) == v && final(c).pos == p,
            Err(e) => r == Err::<Option<ShareBundle>, WitnessError>(e),
        },
{
    match c.read_u8() {
        None => Err(WitnessError::Truncated),
        Some(0) => Ok(None),
        Some(1) => match decode_share_bundle(c) {
            Ok(b) => Ok(Some(b)),
            Err(e) => Err(e),
        },
        Some(_) => Err(WitnessError::BadFormat),
    }
}

fn decode_ciphertext_field(c: &mut Cursor) -> (r: Result<Option<[u8; 32]>, WitnessError>)
    requires
        old(c).pos <= old(c).buf@.len(),
    ensures
        r == parse_ciphertext_field(old(c).buf@, old(c).pos as int),
{
    let ciphertext_hash = if c.is_empty() {
        None
    } else {
        match c.read_u8() {
            None => return Err(WitnessError::Truncated),
            Some(0) => None,
            Some(1) => match c.read_array32() {
                Some(h) => Some(h),
                None => return Err(WitnessError::Truncated),
            },
            Some(_) => return Err(WitnessError::BadFormat),
        }
    };
    if !c.is_empty() {
        return Err(WitnessError::BadFormat);
    }
    Ok(ciphertext_hash)
}

impl AssertWitnessV1 {
    /// Build a packed witness from Assert construction results: the statement
    /// takes the opening's version and instance, and `SHA256(claim_bytes)` as
    /// both public-inputs hash and claim id.
    pub fn new(
        claim_bytes: Vec<u8>,
        opening: AssertOpening,
        h_l_invalid: [u8; 32],
        share_bundle: Option<ShareBundle>,
    ) -> (w: Self)
        ensures
            w.statement.protocol_version == opening.opening_version(),
            w.statement.instance_id == opening.opening_instance(),
            w.statement.public_inputs_hash == sha256_of(claim_bytes@),
            w.statement.claim_id == sha256_of(claim_bytes@),
            w.statement.h_l_invalid == h_l_invalid,
            w.claim_bytes@ == claim_bytes@,
            w.opening == opening,
            bundle_view(w.share_bundle) == bundle_view(share_bundle),
            w.ciphertext_hash is None,
    {
        let public_inputs_hash = sha256(claim_bytes.as_slice());
        let claim_id = public_inputs_hash;
        let protocol_version = opening.version();
        let instance_id = opening.instance_id();
        AssertWitnessV1 {
            statement: PublicStatement {
                protocol_version,
                instance_id,
                public_inputs_hash,
                claim_id,
                h_l_invalid,
            },
            claim_bytes,
            opening,
            share_bundle,
            ciphertext_hash: None,
        }
    }

    /// Bind the off-chain ciphertext commitment for the evaluation instance.
    pub fn with_ciphertext_hash(self, hash: [u8; 32]) -> (w: Self)
        ensures
            w@ == (WitnessView { ciphertext_hash: Some(hash), ..self@ }),
    {
        let mut w = self;
        w.ciphertext_hash = Some(hash);
        w
    }

    /// Encode to bytes (`MAGIC || FORMAT || ...`). The claim and the share list
    /// must fit their `u32` length fields.
    pub fn encode(&self) -> (out: Vec<u8>)
        requires
            encodable(self@),
        ensures
            out@ == witness_bytes(self@),
    {
        let mut out: Vec<u8> = Vec::with_capacity(256);
        append_bytes(&mut out, &MAGIC);
        out.push(FORMAT_V1);
        out.push(self.statement.protocol_version);
        let id = u32_to_le_bytes(self.statement.instance_id);
        append_bytes(&mut out, id.as_slice());
        append_bytes(&mut out, &self.statement.public_inputs_hash);
        append_bytes(&mut out, &self.statement.claim_id);
        append_bytes(&mut out, &self.statement.h_l_invalid);
        write_bytes(&mut out, self.claim_bytes.as_slice());
        encode_opening(&mut out, &self.opening);
        match &self.share_bundle {
            None => out.push(0),
            Some(b) => {
                out.push(1);
                encode_share_bundle(&mut out, b);
            },
        }
        proof {
            assert(out@ =~= witness_body_bytes(self@));
        }
        match &self.ciphertext_hash {
            None => out.push(0),
            Some(h) => {
                out.push(1);
                append_bytes(&mut out, h);
            },
        }
        proof {
            assert(out@ =~= witness_bytes(self@));
        }
        out
    }

    /// Decode and check internal consistency (claim hash and opening against
    /// the statement).
    pub fn decode(bytes: &[u8]) -> (r: Result<Self, WitnessError>)
        ensures
            decode_result_view(r) == decode_witness(bytes@),
    {
        let ghost b = bytes@;
        let mut c = Cursor::new(bytes);
        let magic = match c.read_exact(4) {
            Some(m) => m,
            None => return Err(WitnessError::Truncated),
        };
        if !eq_magic(magic) {
            return Err(WitnessError::BadMagic);
        }
        match c.read_u8() {
            None => return Err(WitnessError::Truncated),
            Some(f) => {
                if f != FORMAT_V1 {
                    return Err(WitnessError::BadFormat);
                }
            },
        }
        if c.buf.len() - c.pos < 105 {
            return Err(WitnessError::Truncated);
        }
        let protocol_version = c.read_u8().unwrap();
        let instance_id = c.read_u32().unwrap();
        let public_inputs_hash = c.read_array32().unwrap();
        let claim_id = c.read_array32().unwrap();
        let h_l_invalid = c.read_array32().unwrap();
        let len = c.read_u32().unwrap();
        let claim = match c.read_exact(len as usize) {
            Some(s) => s,
            None => return Err(WitnessError::Truncated),
        };
        let claim_hash = sha256(claim);
        if !eq32(&claim_hash, &public_inputs_hash) {
            return Err(WitnessError::ClaimHashMismatch);
        }
        let claim_bytes = vstd::slice::slice_to_vec(claim);
        let statement = PublicStatement {
            protocol_version,
            instance_id,
            public_inputs_hash,
            claim_id,
            h_l_invalid,
        };
        proof {
            assert(statement == parse_statement(b));
        }
        let opening = match decode_opening(&mut c) {
            Ok(o) => o,
            Err(e) => return Err(e),
        };
        let share_bundle = match decode_bundle_field(&mut c) {
            Ok(x) => x,
            Err(e) => return Err(e),
        };
        let ciphertext_hash = match decode_ciphertext_field(&mut c) {
            Ok(h) => h,
            Err(e) => return Err(e),
        };
        let wit = AssertWitnessV1 { statement, claim_bytes, opening, share_bundle, ciphertext_hash };
        match wit.validate_opening() {
            Ok(()) => Ok(wit),
            Err(e) => Err(e),
        }
    }

    /// `OpeningMismatch` unless the opening agrees with the statement.
    pub fn validate_opening(&self) -> (r: Result<(), WitnessError>)
        ensures
            r is Ok <==> opening_matches(self@),
            r is Ok <==> opening_fields_agree(self.opening, self.statement),
            r matches Err(e) ==> e == WitnessError::OpeningMismatch,
    {
        let v = self.opening.version();
        let i = self.opening.instance_id();
        let h = self.opening.public_inputs_hash();
        if v != self.statement.protocol_version || i != self.statement.instance_id || !eq32(
            &h,
            &self.statement.public_inputs_hash,
        ) {
            return Err(WitnessError::OpeningMismatch);
        }
        Ok(())
    }

    /// Ensure the packed `h_l_invalid` matches the connector commitment used on-chain.
    pub fn check_hashlock(&self, connector_h: &[u8; 32]) -> (r: Result<(), WitnessError>)
        ensures
            r is Ok <==> self.statement.h_l_invalid == *connector_h,
            r matches Err(e) ==> e == WitnessError::HashlockMismatch,
    {
        if !eq32(&self.statement.h_l_invalid, connector_h) {
            return Err(WitnessError::HashlockMismatch);
        }
        Ok(())
    }

    /// Ensure the packed `ciphertext_hash` (when present) matches the store
    /// commitment for the evaluation instance.
    pub fn check_ciphertext_hash(&self, store_hash: &[u8; 32]) -> (r: Result<(), WitnessError>)
        ensures
            r is Ok <==> match self.ciphertext_hash {
                None => true,
                Some(h) => h == *store_hash,
            },
            r matches Err(e) ==> e == WitnessError::CiphertextHashMismatch,
    {
        match &self.ciphertext_hash {
            None => Ok(()),
            Some(h) => {
                if eq32(h, store_hash) {
                    Ok(())
                } else {
                    Err(WitnessError::CiphertextHashMismatch)
                }
            },
        }
    }
}

// ---------------------------------------------------------------------------
// Laws: decoding an encoding gives the witness back
// ---------------------------------------------------------------------------

proof fn lemma_subrange_of_middle(pre: Seq<u8>, mid: Seq<u8>, post: Seq<u8>, i: int, j: int)
    requires
        0 <= i <= j <= mid.len(),
    ensures
        (pre + mid + post).subrange(pre.len() + i, pre.len() + j) == mid.subrange(i, j),
{
    assert((pre + mid + post).subrange(pre.len() + i, pre.len() + j) =~= mid.subrange(i, j));
}

/// The layout of a share list: 36 bytes per share, index first.
pub proof fn lemma_share_list_layout(s: Seq<(u32, [u8; 32])>)
    ensures
        share_list_bytes(s).len() == 36 * s.len(),
        forall|i: int|
            0 <= i < s.len() ==> #[trigger] share_list_bytes(s).subrange(36 * i, 36 * i + 4)
                == le32(s[i].0),
        forall|i: int|
            0 <= i < s.len() ==> #[trigger] share_list_bytes(s).subrange(36 * i + 4, 36 * i + 36)
                == s[i].1@,
    decreases s.len(),
{
    lemma_auto_spec_u32_to_from_le_bytes();
    if s.len() > 0 {
        let t = s.drop_last();
        lemma_share_list_layout(t);
        let tb = share_list_bytes(t);
        let last = s.last();
        let whole = share_list_bytes(s);
        assert(whole == tb + le32(last.0) + last.1@);
        assert(tb.len() == 36 * t.len());
        assert forall|i: int| 0 <= i < s.len() implies #[trigger] whole.subrange(36 * i, 36 * i + 4)
            == le32(s[i].0) by {
            if i < t.len() {
                assert(t[i] == s[i]);
                assert(whole.subrange(36 * i, 36 * i + 4) =~= tb.subrange(36 * i, 36 * i + 4));
            } else {
                assert(whole.subrange(36 * i, 36 * i + 4) =~= le32(last.0));
            }
        }
        assert forall|i: int| 0 <= i < s.len() implies #[trigger] whole.subrange(
            36 * i + 4,
            36 * i + 36,
        ) == s[i].1@ by {
            if i < t.len() {
                assert(t[i] == s[i]);
                assert(whole.subrange(36 * i + 4, 36 * i + 36) =~= tb.subrange(
                    36 * i + 4,
                    36 * i + 36,
                ));
            } else {
                assert(whole.subrange(36 * i + 4, 36 * i + 36) =~= last.1@);
            }
        }
    }
}

proof fn lemma_parse_opening(pre: Seq<u8>, o: AssertOpening, rest: Seq<u8>)
    ensures
        parse_opening(pre + opening_bytes(o) + rest, pre.len() as int) == Ok::<
            (AssertOpening, int),
            WitnessError,
        >((o, (pre.len() + opening_bytes(o).len()) as int)),
{
    lemma_auto_spec_u32_to_from_le_bytes();
    let ob = opening_bytes(o);
    let b = pre + ob + rest;
    let p = pre.len() as int;
    assert(b[p] == ob[0]);
    assert(b[p + 1] == ob[1]);
    match o {
        AssertOpening::Direct(d) => {
            assert(ob.len() == 70);
            lemma_subrange_of_middle(pre, ob, rest, 2, 6);
            lemma_subrange_of_middle(pre, ob, rest, 6, 38);
            lemma_subrange_of_middle(pre, ob, rest, 38, 70);
            assert(ob.subrange(2, 6) =~= le32(d.instance_id));
            assert(ob.subrange(6, 38) =~= d.seed@);
            assert(ob.subrange(38, 70) =~= d.public_inputs_hash@);
            lemma_arr32_of_view(d.seed);
            lemma_arr32_of_view(d.public_inputs_hash);
        },
        AssertOpening::Adaptor(a) => {
            assert(ob.len() == 230);
            lemma_subrange_of_middle(pre, ob, rest, 2, 6);
            lemma_subrange_of_middle(pre, ob, rest, 6, 38);
            lemma_subrange_of_middle(pre, ob, rest, 38, 70);
            lemma_subrange_of_middle(pre, ob, rest, 70, 102);
            lemma_subrange_of_middle(pre, ob, rest, 102, 134);
            lemma_subrange_of_middle(pre, ob, rest, 134, 166);
            lemma_subrange_of_middle(pre, ob, rest, 166, 198);
            lemma_subrange_of_middle(pre, ob, rest, 198, 230);
            assert(ob.subrange(2, 6) =~= le32(a.instance_id));
            assert(ob.subrange(6, 38) =~= a.signer_xonly@);
            assert(ob.subrange(38, 70) =~= a.adaptor_point@);
            assert(ob.subrange(70, 102) =~= a.nonce_x@);
            assert(ob.subrange(102, 134) =~= a.adapted_s@);
            assert(ob.subrange(134, 166) =~= a.completed_s@);
            assert(ob.subrange(166, 198) =~= a.message@);
            assert(ob.subrange(198, 230) =~= a.public_inputs_hash@);
            lemma_arr32_of_view(a.signer_xonly);
            lemma_arr32_of_view(a.adaptor_point);
            lemma_arr32_of_view(a.nonce_x);
            lemma_arr32_of_view(a.adapted_s);
            lemma_arr32_of_view(a.completed_s);
            lemma_arr32_of_view(a.message);
            lemma_arr32_of_view(a.public_inputs_hash);
        },
    }
}

proof fn lemma_parse_bundle_field(pre: Seq<u8>, f: Option<ShareBundleView>, rest: Seq<u8>)
    requires
        match f {
            Some(x) => x.check_shares.len() <= u32::MAX,
            None => true,
        },
    ensures
        parse_bundle_field(pre + bundle_field_bytes(f) + rest, pre.len() as int) == Ok::<
            (Option<ShareBundleView>, int),
            WitnessError,
        >((f, (pre.len() + bundle_field_bytes(f).len()) as int)),
{
    lemma_auto_spec_u32_to_from_le_bytes();
    let fb = bundle_field_bytes(f);
    let b = pre + fb + rest;
    let p = pre.len() as int;
    assert(b[p] == fb[0]);
    match f {
        None => {},
        Some(x) => {
            let s = x.check_shares;
            let count = s.len() as u32;
            let sl = share_list_bytes(s);
            lemma_share_list_layout(s);
            assert(fb.len() == 17 + 36 * s.len());
            lemma_subrange_of_middle(pre, fb, rest, 1, 5);
            lemma_subrange_of_middle(pre, fb, rest, 5, 9);
            lemma_subrange_of_middle(pre, fb, rest, 9, 13);
            lemma_subrange_of_middle(pre, fb, rest, 13, 17);
            assert(fb.subrange(1, 5) =~= le32(x.n));
            assert(fb.subrange(5, 9) =~= le32(x.threshold));
            assert(fb.subrange(9, 13) =~= le32(x.adaptor_index));
            assert(fb.subrange(13, 17) =~= le32(count));
            assert(le_u32_at(b, p + 1 + 12) == count);
            let start = p + 17;
            assert forall|i: int| 0 <= i < s.len() implies #[trigger] parse_shares(
                b,
                start,
                s.len(),
            )[i] == s[i] by {
                lemma_subrange_of_middle(pre, fb, rest, 17 + 36 * i, 17 + 36 * i + 4);
                lemma_subrange_of_middle(pre, fb, rest, 17 + 36 * i + 4, 17 + 36 * i + 36);
                assert(fb.subrange(17 + 36 * i, 17 + 36 * i + 4) =~= sl.subrange(36 * i, 36 * i + 4));
                assert(fb.subrange(17 + 36 * i + 4, 17 + 36 * i + 36) =~= sl.subrange(
                    36 * i + 4,
                    36 * i + 36,
                ));
                assert(sl.subrange(36 * i, 36 * i + 4) == le32(s[i].0));
                lemma_arr32_of_view(s[i].1);
            }
            assert(parse_shares(b, start, s.len()) =~= s);
        },
    }
}

proof fn lemma_parse_ciphertext_field(pre: Seq<u8>, h: Option<[u8; 32]>)
    ensures
        parse_ciphertext_field(pre + ciphertext_field_bytes(h), pre.len() as int) == Ok::<
            Option<[u8; 32]>,
            WitnessError,
        >(h),
{
    let cb = ciphertext_field_bytes(h);
    let b = pre + cb;
    let p = pre.len() as int;
    assert(b[p] == cb[0]);
    match h {
        None => {},
        Some(x) => {
            assert(b.subrange(p + 1, p + 33) =~= x@);
            lemma_arr32_of_view(x);
        },
    }
}

/// The body of an encoding (everything but the ciphertext field) decodes to
/// the witness once followed by the given tail.
proof fn lemma_decode_body(w: WitnessView, tail: Seq<u8>)
    requires
        encodable(w),
        claim_hash_matches(w),
    ensures
        decode_witness(witness_body_bytes(w) + tail) == match parse_ciphertext_field(
            witness_body_bytes(w) + tail,
            witness_body_bytes(w).len() as int,
        ) {
            Err(e) => Err(e),
            Ok(ct) => {
                let v = WitnessView { ciphertext_hash: ct, ..w };
                if opening_matches(v) {
                    Ok(v)
                } else {
                    Err(WitnessError::OpeningMismatch)
                }
            },
        },
{
    lemma_auto_spec_u32_to_from_le_bytes();
    let s = w.statement;
    let len = w.claim_bytes.len() as u32;
    let head = MAGIC@ + seq![FORMAT_V1] + statement_bytes(s) + le32(len);
    let ob = opening_bytes(w.opening);
    let fb = bundle_field_bytes(w.share_bundle);
    let b = witness_body_bytes(w) + tail;
    assert(head.len() == 110);
    assert(b =~= head + w.claim_bytes + (ob + fb + tail));
    assert(b.subrange(0, 4) =~= MAGIC@);
    assert(b[4] == FORMAT_V1);
    assert(b[5] == s.protocol_version);
    assert(b.subrange(6, 10) =~= le32(s.instance_id));
    assert(b.subrange(10, 42) =~= s.public_inputs_hash@);
    assert(b.subrange(42, 74) =~= s.claim_id@);
    assert(b.subrange(74, 106) =~= s.h_l_invalid@);
    assert(b.subrange(106, 110) =~= le32(len));
    lemma_arr32_of_view(s.public_inputs_hash);
    lemma_arr32_of_view(s.claim_id);
    lemma_arr32_of_view(s.h_l_invalid);
    assert(parse_statement(b) == s);
    assert(le_u32_at(b, 106) == len);
    let p: int = 110 + w.claim_bytes.len() as int;
    assert(b.subrange(110, p) =~= w.claim_bytes);
    let pre = head + w.claim_bytes;
    assert(b =~= pre + ob + (fb + tail));
    lemma_parse_opening(pre, w.opening, fb + tail);
    let pre2 = pre + ob;
    assert(b =~= pre2 + fb + tail);
    lemma_parse_bundle_field(pre2, w.share_bundle, tail);
    assert(pre2.len() + fb.len() == witness_body_bytes(w).len());
}

/// Decoding an encoded witness gives the witness back, when the witness is
/// consistent (claim hash and opening agree with the statement) and its
/// lengths fit the format.
pub proof fn lemma_decode_encode(w: WitnessView)
    requires
        encodable(w),
        claim_hash_matches(w),
        opening_matches(w),
    ensures
        decode_witness(witness_bytes(w)) == Ok::<WitnessView, WitnessError>(w),
{
    let body = witness_body_bytes(w);
    lemma_parse_ciphertext_field(body, w.ciphertext_hash);
    lemma_decode_body(w, ciphertext_field_bytes(w.ciphertext_hash));
    assert(WitnessView { ciphertext_hash: w.ciphertext_hash, ..w } == w);
}

/// An early-format blob, which stops before the ciphertext field, decodes to
/// the witness without a ciphertext hash.
pub proof fn lemma_decode_legacy_encoding(w: WitnessView)
    requires
        encodable(w),
        claim_hash_matches(w),
        opening_matches(w),
        w.ciphertext_hash is None,
    ensures
        witness_bytes(w).drop_last() == witness_body_bytes(w),
        decode_witness(witness_body_bytes(w)) == Ok::<WitnessView, WitnessError>(w),
{
    let body = witness_body_bytes(w);
    assert(witness_bytes(w).drop_last() =~= body);
    assert(body + Seq::<u8>::empty() =~= body);
    assert(parse_ciphertext_field(body + Seq::<u8>::empty(), body.len() as int) == Ok::<
        Option<[u8; 32]>,
        WitnessError,
    >(None));
    lemma_decode_body(w, Seq::<u8>::empty());
    assert(WitnessView { ciphertext_hash: None, ..w } == w);
}

/// A witness built by [`AssertWitnessV1::new`] (optionally with a ciphertext
/// hash) from an opening that binds the same claim bytes decodes to itself.
pub proof fn lemma_new_witness_roundtrips(w: WitnessView)
    requires
        encodable(w),
        w.statement.public_inputs_hash == sha256_of(w.claim_bytes),
        w.statement.protocol_version == w.opening.opening_version(),
        w.statement.instance_id == w.opening.opening_instance(),
        w.opening.opening_inputs_hash() == sha256_of(w.claim_bytes),
    ensures
        decode_witness(witness_bytes(w)) == Ok::<WitnessView, WitnessError>(w),
{
    lemma_decode_encode(w);
}

/// Bytes after a complete encoding are refused: appending anything to the
/// encoding of a witness that decodes makes decoding fail with `BadFormat`.
pub proof fn lemma_trailing_bytes_refused(w: WitnessView, extra: Seq<u8>)
    requires
        decode_witness(witness_bytes(w)) == Ok::<WitnessView, WitnessError>(w),
        extra.len() > 0,
    ensures
        decode_witness(witness_bytes(w) + extra) == Err::<WitnessView, WitnessError>(
            WitnessError::BadFormat,
        ),
{
    lemma_decoded_is_consistent(witness_bytes(w));
    let body = witness_body_bytes(w);
    let cb = ciphertext_field_bytes(w.ciphertext_hash);
    let b = body + (cb + extra);
    assert(witness_bytes(w) + extra =~= b);
    let p = body.len() as int;
    assert(b[p] == cb[0]);
    lemma_decode_body(w, cb + extra);
}

/// A statement whose instance or version differs from the opening's is
/// refused: changing either in the statement of a witness that decodes makes
/// decoding fail with `OpeningMismatch`.
pub proof fn lemma_statement_mismatch_refused(w: WitnessView, w2: WitnessView)
    requires
        decode_witness(witness_bytes(w)) == Ok::<WitnessView, WitnessError>(w),
        w2.claim_bytes == w.claim_bytes,
        w2.opening == w.opening,
        w2.share_bundle == w.share_bundle,
        w2.ciphertext_hash == w.ciphertext_hash,
        w2.statement.public_inputs_hash == w.statement.public_inputs_hash,
        w2.statement.instance_id != w.statement.instance_id
            || w2.statement.protocol_version != w.statement.protocol_version,
    ensures
        decode_witness(witness_bytes(w2)) == Err::<WitnessView, WitnessError>(
            WitnessError::OpeningMismatch,
        ),
{
    lemma_decoded_is_consistent(witness_bytes(w));
    let body = witness_body_bytes(w2);
    let cb = ciphertext_field_bytes(w2.ciphertext_hash);
    lemma_parse_ciphertext_field(body, w2.ciphertext_hash);
    lemma_decode_body(w2, cb);
    assert(WitnessView { ciphertext_hash: w2.ciphertext_hash, ..w2 } == w2);
}

/// What a decode accepts is consistent: the claim hashes to the statement's
/// inputs hash, the opening agrees with the statement, and its lengths fit
/// the format.
pub proof fn lemma_decoded_is_consistent(b: Seq<u8>)
    requires
        decode_witness(b) is Ok,
    ensures
        claim_hash_matches(decode_witness(b)->Ok_0),
        opening_matches(decode_witness(b)->Ok_0),
        encodable(decode_witness(b)->Ok_0),
{
    let w = decode_witness(b)->Ok_0;
    let p = claim_offset() + le_u32_at(b, 106) as int;
    let p1 = parse_opening(b, p)->Ok_0.1;
    let f = parse_bundle_field(b, p1)->Ok_0.0;
    assert(w.share_bundle == f);
    if f is Some {
        assert(f->Some_0.check_shares.len() == le_u32_at(b, p1 + 1 + 12) as nat);
    }
}

proof fn lemma_u32_read(b: Seq<u8>, p: int)
    requires
        0 <= p,
        p + 4 <= b.len(),
    ensures
        le32(le_u32_at(b, p)) == b.subrange(p, p + 4),
{
    lemma_auto_spec_u32_to_from_le_bytes();
}

proof fn lemma_arr32_read(b: Seq<u8>, p: int)
    requires
        0 <= p,
        p + 32 <= b.len(),
    ensures
        arr32_at(b, p)@ == b.subrange(p, p + 32),
{
    lemma_view_of_arr32(b.subrange(p, p + 32));
}

proof fn lemma_concat_subranges(b: Seq<u8>, i: int, j: int, k: int)
    requires
        0 <= i <= j <= k <= b.len(),
    ensures
        b.subrange(i, j) + b.subrange(j, k) == b.subrange(i, k),
{
    assert(b.subrange(i, j) + b.subrange(j, k) =~= b.subrange(i, k));
}

proof fn lemma_opening_read(b: Seq<u8>, p: int)
    requires
        0 <= p,
        parse_opening(b, p) is Ok,
    ensures
        opening_bytes(parse_opening(b, p)->Ok_0.0) == b.subrange(p, parse_opening(b, p)->Ok_0.1),
{
    let (o, q) = parse_opening(b, p)->Ok_0;
    lemma_u32_read(b, p + 2);
    assert(b.subrange(p, p + 2) =~= seq![b[p], b[p + 1]]);
    lemma_concat_subranges(b, p, p + 2, p + 6);
    let mut e: int = p + 6;
    if b[p] == OPENING_DIRECT {
        lemma_arr32_read(b, p + 6);
        lemma_arr32_read(b, p + 38);
        lemma_concat_subranges(b, p, p + 6, p + 38);
        lemma_concat_subranges(b, p, p + 38, p + 70);
    } else {
        lemma_arr32_read(b, p + 6);
        lemma_arr32_read(b, p + 38);
        lemma_arr32_read(b, p + 70);
        lemma_arr32_read(b, p + 102);
        lemma_arr32_read(b, p + 134);
        lemma_arr32_read(b, p + 166);
        lemma_arr32_read(b, p + 198);
        lemma_concat_subranges(b, p, p + 6, p + 38);
        lemma_concat_subranges(b, p, p + 38, p + 70);
        lemma_concat_subranges(b, p, p + 70, p + 102);
        lemma_concat_subranges(b, p, p + 102, p + 134);
        lemma_concat_subranges(b, p, p + 134, p + 166);
        lemma_concat_subranges(b, p, p + 166, p + 198);
        lemma_concat_subranges(b, p, p + 198, p + 230);
    }
}

proof fn lemma_shares_read(b: Seq<u8>, p: int, c: nat)
    requires
        0 <= p,
        p + 36 * c <= b.len(),
    ensures
        share_list_bytes(parse_shares(b, p, c)) == b.subrange(p, p + 36 * c),
    decreases c,
{
    if c == 0 {
        assert(share_list_bytes(parse_shares(b, p, c)) =~= b.subrange(p, p));
    } else {
        let s = parse_shares(b, p, c);
        let q = p + 36 * (c - 1);
        lemma_shares_read(b, p, (c - 1) as nat);
        assert(s.drop_last() =~= parse_shares(b, p, (c - 1) as nat));
        lemma_u32_read(b, q);
        lemma_arr32_read(b, q + 4);
        lemma_concat_subranges(b, p, q, q + 4);
        lemma_concat_subranges(b, p, q + 4, q + 36);
    }
}

proof fn lemma_bundle_field_read(b: Seq<u8>, p: int)
    requires
        0 <= p,
        parse_bundle_field(b, p) is Ok,
    ensures
        bundle_field_bytes(parse_bundle_field(b, p)->Ok_0.0) == b.subrange(
            p,
            parse_bundle_field(b, p)->Ok_0.1,
        ),
{
    if b[p] == 1 {
        let x = p + 1;
        let count = le_u32_at(b, x + 12);
        lemma_u32_read(b, x);
        lemma_u32_read(b, x + 4);
        lemma_u32_read(b, x + 8);
        lemma_u32_read(b, x + 12);
        lemma_shares_read(b, x + 16, count as nat);
        assert(parse_shares(b, x + 16, count as nat).len() == count);
        assert(b.subrange(p, x) =~= seq![1u8]);
        lemma_concat_subranges(b, p, x, x + 4);
        lemma_concat_subranges(b, p, x + 4, x + 8);
        lemma_concat_subranges(b, p, x + 8, x + 12);
        lemma_concat_subranges(b, p, x + 12, x + 16);
        lemma_concat_subranges(b, p, x + 16, x + 16 + 36 * count);
    } else {
        assert(b.subrange(p, p + 1) =~= seq![0u8]);
    }
}

/// Encoding a decoded witness gives the input back: the same bytes, or, for
/// an early-format blob that stops before the ciphertext field, the same
/// bytes followed by the empty ciphertext flag.
pub proof fn lemma_encode_decoded(b: Seq<u8>)
    requires
        decode_witness(b) is Ok,
    ensures
        claim_hash_matches(decode_witness(b)->Ok_0),
        opening_matches(decode_witness(b)->Ok_0),
        encodable(decode_witness(b)->Ok_0),
        witness_bytes(decode_witness(b)->Ok_0) == b || (decode_witness(b)->Ok_0.ciphertext_hash is None
            && witness_bytes(decode_witness(b)->Ok_0) == b.push(0u8)),
{
    lemma_decoded_is_consistent(b);
    let w = decode_witness(b)->Ok_0;
    let len = le_u32_at(b, 106);
    let p = claim_offset() + len as int;
    let p1 = parse_opening(b, p)->Ok_0.1;
    let p2 = parse_bundle_field(b, p1)->Ok_0.1;
    // Header.
    lemma_u32_read(b, 6);
    lemma_u32_read(b, 106);
    lemma_arr32_read(b, 10);
    lemma_arr32_read(b, 42);
    lemma_arr32_read(b, 74);
    assert(b.subrange(0, 6) =~= MAGIC@ + seq![FORMAT_V1] + seq![b[5]]);
    lemma_concat_subranges(b, 0, 6, 10);
    lemma_concat_subranges(b, 0, 10, 42);
    lemma_concat_subranges(b, 0, 42, 74);
    lemma_concat_subranges(b, 0, 74, 106);
    lemma_concat_subranges(b, 0, 106, 110);
    assert(w.claim_bytes.len() == len);
    lemma_concat_subranges(b, 0, 110, p);
    // Opening and bundle field.
    lemma_opening_read(b, p);
    lemma_concat_subranges(b, 0, p, p1);
    lemma_bundle_field_read(b, p1);
    lemma_concat_subranges(b, 0, p1, p2);
    assert(witness_body_bytes(w) == b.subrange(0, p2));
    // Ciphertext field.
    if p2 >= b.len() {
        assert(b.subrange(0, p2) =~= b);
        assert(witness_bytes(w) =~= b.push(0u8));
    } else if b[p2] == 0 {
        assert(b.subrange(p2, p2 + 1) =~= seq![0u8]);
        lemma_concat_subranges(b, 0, p2, p2 + 1);
        assert(b.subrange(0, b.len() as int) =~= b);
    } else {
        lemma_arr32_read(b, p2 + 1);
        assert(b.subrange(p2, p2 + 1) =~= seq![1u8]);
        lemma_concat_subranges(b, p2, p2 + 1, p2 + 33);
        lemma_concat_subranges(b, 0, p2, p2 + 33);
        assert(b.subrange(0, b.len() as int) =~= b);
    }
}

/// The opening's own fields agree with the statement: its version, its
/// instance and the public-inputs hash it binds.
pub open spec fn opening_fields_agree(o: AssertOpening, s: PublicStatement) -> bool {
    match o {
        AssertOpening::Direct(d) => d.version == s.protocol_version && d.instance_id
            == s.instance_id && d.public_inputs_hash == s.public_inputs_hash,
        AssertOpening::Adaptor(a) => a.version == s.protocol_version && a.instance_id
            == s.instance_id && a.public_inputs_hash == s.public_inputs_hash,
    }
}

/// A witness that decodes carries an opening bound to its own statement (same
/// version, instance and public-inputs hash) and a claim that hashes to the
/// statement's public-inputs hash: an opening made for another claim or
/// instance is never accepted.
pub proof fn lemma_decoded_opening_binds_statement(b: Seq<u8>)
    requires
        decode_witness(b) is Ok,
    ensures
        opening_fields_agree(decode_witness(b)->Ok_0.opening, decode_witness(b)->Ok_0.statement),
        sha256_of(decode_witness(b)->Ok_0.claim_bytes) == decode_witness(
            b,
        )->Ok_0.statement.public_inputs_hash,
{
    lemma_decoded_is_consistent(b);
}

} // verus!
