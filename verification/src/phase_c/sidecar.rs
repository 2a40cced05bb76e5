//! Phase C+ evaluation sidecar: the on-disk framing of verifying key, proof,
//! public inputs and input wire labels, stored next to a ciphertext stream so
//! a challenger can Evaluate without the Engine's in-memory bundle.
//!
//! The pairing-curve objects (verifying keys, proof, public field elements)
//! are kept as their compressed serializations; this module frames them:
//! `MAGIC || FORMAT || k || proof_should_verify || vk || proof || #public ||
//! public* || #wires || (label0 || label1)* || public_params_len || garbler vk`,
//! every object as `len (LE u32) || bytes`.

use crate::phase_c::ciphertext_store::StoreError;
use crate::wire::{le_u32_at, Cursor};
use vstd::bytes::{spec_u32_to_le_bytes, u32_to_le_bytes};
use vstd::prelude::*;

verus! {

/// Sidecar magic: Beacon Eval Ark (`"BEAE"`).
pub const SIDECAR_MAGIC: [u8; 4] = [0x42, 0x45, 0x41, 0x45];

/// Sidecar format version.
pub const SIDECAR_FORMAT_V1: u8 = 1;

/// One garbled input wire: its two 16-byte labels (big-endian).
#[derive(Clone, Copy, Debug, PartialEq, Eq)]
pub struct WireLabels {
    pub label0: [u8; 16],
    pub label1: [u8; 16],
}

/// Disk package for Evaluate, with the curve objects in compressed form.
#[derive(Clone, Debug, PartialEq, Eq)]
pub struct Groth16EvalSidecar {
    pub k: u32,
    pub proof_should_verify: bool,
    /// Compressed verifying key.
    pub vk: Vec<u8>,
    /// Compressed proof.
    pub proof: Vec<u8>,
    /// Compressed public inputs.
    pub public: Vec<Vec<u8>>,
    pub input_wire_values: Vec<WireLabels>,
    /// Garbler input: number of public parameters.
    pub public_params_len: u32,
    /// Garbler input: compressed verifying key (kept for a self-contained rebuild).
    pub garbler_vk: Vec<u8>,
}

/// The mathematical content of a sidecar.
pub struct SidecarView {
    pub k: u32,
    pub proof_should_verify: bool,
    pub vk: Seq<u8>,
    pub proof: Seq<u8>,
    pub public: Seq<Seq<u8>>,
    pub input_wire_values: Seq<WireLabels>,
    pub public_params_len: u32,
    pub garbler_vk: Seq<u8>,
}

/// The byte views of a list of byte vectors.
pub open spec fn blobs_view(v: Seq<Vec<u8>>) -> Seq<Seq<u8>> {
    Seq::new(v.len(), |i: int| v[i]@)
}

impl View for Groth16EvalSidecar {
    type V = SidecarView;

    open spec fn view(&self) -> SidecarView {
        SidecarView {
            k: self.k,
            proof_should_verify: self.proof_should_verify,
            vk: self.vk@,
            proof: self.proof@,
            public: blobs_view(self.public@),
            input_wire_values: self.input_wire_values@,
            public_params_len: self.public_params_len,
            garbler_vk: self.garbler_vk@,
        }
    }
}

// ---------------------------------------------------------------------------
// Encoding (specification)
// ---------------------------------------------------------------------------

/// An object with its length prefix.
pub open spec fn blob_bytes(b: Seq<u8>) -> Seq<u8> {
    spec_u32_to_le_bytes(b.len() as u32) + b
}

/// A list of objects, each with its length prefix.
pub open spec fn blobs_bytes(s: Seq<Seq<u8>>) -> Seq<u8>
    decreases s.len(),
{
    if s.len() == 0 {
        Seq::empty()
    } else {
        blobs_bytes(s.drop_last()) + blob_bytes(s.last())
    }
}

/// A list of wires, 32 bytes each.
pub open spec fn wires_bytes(w: Seq<WireLabels>) -> Seq<u8>
    decreases w.len(),
{
    if w.len() == 0 {
        Seq::empty()
    } else {
        wires_bytes(w.drop_last()) + w.last().label0@ + w.last().label1@
    }
}

/// The encoded sidecar.
pub open spec fn sidecar_bytes(v: SidecarView) -> Seq<u8> {
    SIDECAR_MAGIC@ + seq![SIDECAR_FORMAT_V1] + spec_u32_to_le_bytes(v.k) + seq![
        if v.proof_should_verify {
            1u8
        } else {
            0u8
        },
    ] + blob_bytes(v.vk) + blob_bytes(v.proof) + spec_u32_to_le_bytes(v.public.len() as u32)
        + blobs_bytes(v.public) + spec_u32_to_le_bytes(v.input_wire_values.len() as u32)
        + wires_bytes(v.input_wire_values) + spec_u32_to_le_bytes(v.public_params_len)
        + blob_bytes(v.garbler_vk)
}

/// Whether every length fits its `u32` prefix.
pub open spec fn sidecar_encodable(v: SidecarView) -> bool {
    &&& v.vk.len() <= u32::MAX
    &&& v.proof.len() <= u32::MAX
    &&& v.garbler_vk.len() <= u32::MAX
    &&& v.public.len() <= u32::MAX
    &&& v.input_wire_values.len() <= u32::MAX
    &&& forall|i: int| 0 <= i < v.public.len() ==> #[trigger] v.public[i].len() <= u32::MAX
}

// ---------------------------------------------------------------------------
// Decoding (specification)
// ---------------------------------------------------------------------------

/// The error every short read gives.
pub open spec fn truncated() -> StoreError {
    StoreError::BadMeta("sidecar truncated")
}

/// A length-prefixed object at `p`, and the position after it.
pub open spec fn parse_blob(b: Seq<u8>, p: int) -> Option<(Seq<u8>, int)> {
    if p + 4 > b.len() {
        None
    } else {
        let l = le_u32_at(b, p) as int;
        if p + 4 + l > b.len() {
            None
        } else {
            Some((b.subrange(p + 4, p + 4 + l), p + 4 + l))
        }
    }
}

/// `count` length-prefixed objects from `p`, read front to back.
pub open spec fn parse_blobs(b: Seq<u8>, p: int, count: nat) -> Option<(Seq<Seq<u8>>, int)>
    decreases count,
{
    if count == 0 {
        Some((Seq::empty(), p))
    } else {
        match parse_blobs(b, p, (count - 1) as nat) {
            None => None,
            Some((s, q)) => match parse_blob(b, q) {
                None => None,
                Some((x, r)) => Some((s.push(x), r)),
            },
        }
    }
}

/// The 16-byte array whose bytes are `s`.
pub open spec fn arr16(s: Seq<u8>) -> [u8; 16] {
    choose|a: [u8; 16]| a@ == s
}

/// `count` wires from `p`, 32 bytes each.
pub open spec fn parse_wires(b: Seq<u8>, p: int, count: nat) -> Seq<WireLabels> {
    Seq::new(
        count,
        |i: int|
            WireLabels {
                label0: arr16(b.subrange(p + 32 * i, p + 32 * i + 16)),
                label1: arr16(b.subrange(p + 32 * i + 16, p + 32 * i + 32)),
            },
    )
}

/// What decoding gives: the sidecar, or the first problem met reading it.
pub open spec fn sidecar_decode(b: Seq<u8>) -> Result<SidecarView, StoreError> {
    if b.len() < 4 {
        Err(truncated())
    } else if b.subrange(0, 4) != SIDECAR_MAGIC@ {
        Err(StoreError::BadMeta("sidecar bad magic"))
    } else if b.len() < 5 {
        Err(truncated())
    } else if b[4] != SIDECAR_FORMAT_V1 {
        Err(StoreError::BadMeta("sidecar bad format"))
    } else if b.len() < 10 {
        Err(truncated())
    } else {
        match parse_blob(b, 10) {
            None => Err(truncated()),
            Some((vk, p1)) => match parse_blob(b, p1) {
                None => Err(truncated()),
                Some((proof, p2)) => if p2 + 4 > b.len() {
                    Err(truncated())
                } else {
                    match parse_blobs(b, p2 + 4, le_u32_at(b, p2) as nat) {
                        None => Err(truncated()),
                        Some((public, p3)) => if p3 + 4 > b.len() {
                            Err(truncated())
                        } else {
                            let n_wires = le_u32_at(b, p3) as nat;
                            let p4 = p3 + 4 + 32 * n_wires;
                            if p4 > b.len() {
                                Err(truncated())
                            } else if p4 + 4 > b.len() {
                                Err(truncated())
                            } else {
                                match parse_blob(b, p4 + 4) {
                                    None => Err(truncated()),
                                    Some((garbler_vk, p5)) => if p5 < b.len() {
                                        Err(StoreError::BadMeta("sidecar trailing bytes"))
                                    } else {
                                        Ok(
                                            SidecarView {
                                                k: le_u32_at(b, 5),
                                                proof_should_verify: b[9] != 0,
                                                vk,
                                                proof,
                                                public,
                                                input_wire_values: parse_wires(
                                                    b,
                                                    p3 + 4,
                                                    n_wires,
                                                ),
                                                public_params_len: le_u32_at(b, p4),
                                                garbler_vk,
                                            },
                                        )
                                    },
                                }
                            }
                        },
                    }
                },
            },
        }
    }
}

/// The view of a decode result.
pub open spec fn sidecar_result_view(r: Result<Groth16EvalSidecar, StoreError>) -> Result<
    SidecarView,
    StoreError,
> {
    match r {
        Ok(s) => Ok(s@),
        Err(e) => Err(e),
    }
}

// ---------------------------------------------------------------------------
// Executable encode / decode
// ---------------------------------------------------------------------------

fn push_u32(out: &mut Vec<u8>, x: u32)
    ensures
        final(out)@ == old(out)@ + spec_u32_to_le_bytes(x),
{
    let b = u32_to_le_bytes(x);
    crate::hashing::append_bytes(out, b.as_slice());
}

fn push_blob(out: &mut Vec<u8>, b: &[u8])
    requires
        b@.len() <= u32::MAX,
    ensures
        final(out)@ == old(out)@ + blob_bytes(b@),
{
    push_u32(out, b.len() as u32);
    crate::hashing::append_bytes(out, b);
    proof {
        assert(final(out)@ =~= old(out)@ + blob_bytes(b@));
    }
}

impl Groth16EvalSidecar {
    /// Encode to the binary sidecar format.
    pub fn encode(&self) -> (out: Vec<u8>)
        requires
            sidecar_encodable(self@),
        ensures
            out@ == sidecar_bytes(self@),
    {
        let mut out: Vec<u8> = Vec::new();
        crate::hashing::append_bytes(&mut out, &SIDECAR_MAGIC);
        out.push(SIDECAR_FORMAT_V1);
        push_u32(&mut out, self.k);
        out.push(if self.proof_should_verify { 1u8 } else { 0u8 });
        push_blob(&mut out, self.vk.as_slice());
        push_blob(&mut out, self.proof.as_slice());
        let ghost head = out@;
        push_u32(&mut out, self.public.len() as u32);
        let ghost mid = out@;
        let mut i: usize = 0;
        while i < self.public.len()
            invariant
                0 <= i <= self.public@.len(),
                sidecar_encodable(self@),
                out@ == mid + blobs_bytes(blobs_view(self.public@).take(i as int)),
            decreases self.public@.len() - i,
        {
            proof {
                assert(blobs_view(self.public@)[i as int] == self.public@[i as int]@);
                assert(self@.public[i as int].len() <= u32::MAX);
            }
            push_blob(&mut out, self.public[i].as_slice());
            proof {
                let t = blobs_view(self.public@).take(i + 1);
                assert(t.drop_last() =~= blobs_view(self.public@).take(i as int));
                assert(out@ =~= mid + blobs_bytes(t));
            }
            i = i + 1;
        }
        proof {
            assert(blobs_view(self.public@).take(i as int) =~= blobs_view(self.public@));
        }
        let ghost after_public = out@;
        push_u32(&mut out, self.input_wire_values.len() as u32);
        let ghost mid2 = out@;
        let mut j: usize = 0;
        while j < self.input_wire_values.len()
            invariant
                0 <= j <= self.input_wire_values@.len(),
                out@ == mid2 + wires_bytes(self.input_wire_values@.take(j as int)),
            decreases self.input_wire_values@.len() - j,
        {
            let w = self.input_wire_values[j];
            crate::hashing::append_bytes(&mut out, &w.label0);
            crate::hashing::append_bytes(&mut out, &w.label1);
            proof {
                let t = self.input_wire_values@.take(j + 1);
                assert(t.drop_last() =~= self.input_wire_values@.take(j as int));
                assert(out@ =~= mid2 + wires_bytes(t));
            }
            j = j + 1;
        }
        proof {
            assert(self.input_wire_values@.take(j as int) =~= self.input_wire_values@);
        }
        push_u32(&mut out, self.public_params_len);
        push_blob(&mut out, self.garbler_vk.as_slice());
        proof {
            assert(out@ =~= sidecar_bytes(self@));
        }
        out
    }
}

fn copy_array16(s: &[u8]) -> (a: [u8; 16])
    requires
        s@.len() == 16,
    ensures
        a@ == s@,
        a == arr16(s@),
{
    let mut a = [0u8; 16];
    let mut i: usize = 0;
    while i < 16
        invariant
            0 <= i <= 16,
            s@.len() == 16,
            forall|j: int| 0 <= j < i ==> a@[j] == s@[j],
        decreases 16 - i,
    {
        a[i] = s[i];
        i = i + 1;
    }
    proof {
        assert(a@ =~= s@);
        lemma_arr16_of_view(a);
    }
    a
}

proof fn lemma_arr16_of_view(a: [u8; 16])
    ensures
        arr16(a@) == a,
{
    let c = arr16(a@);
    assert(a@ == a@);
    assert(c@ == a@);
    broadcast use vstd::array::group_array_axioms;

    assert forall|j: int| 0 <= j < 16 implies c[j] == a[j] by {
        assert(c@[j] == a@[j]);
    }
    assert(c =~= a);
}

/// The header checks pass and the proof object ends at `p2`.
pub open spec fn header_ends_at(b: Seq<u8>, p2: int) -> bool {
    &&& b.len() >= 10
    &&& b.subrange(0, 4) == SIDECAR_MAGIC@
    &&& b[4] == SIDECAR_FORMAT_V1
    &&& match parse_blob(b, 10) {
        Some((_, p1)) => match parse_blob(b, p1) {
            Some((_, q)) => q == p2,
            None => false,
        },
        None => false,
    }
}

proof fn lemma_parse_blobs_stays_none(b: Seq<u8>, p: int, k: nat, m: nat)
    requires
        k <= m,
        parse_blobs(b, p, k) is None,
    ensures
        parse_blobs(b, p, m) is None,
    decreases m - k,
{
    if k < m {
        lemma_parse_blobs_stays_none(b, p, k, (m - 1) as nat);
    }
}

fn read_blob(c: &mut Cursor) -> (r: Option<Vec<u8>>)
    requires
        old(c).pos <= old(c).buf@.len(),
    ensures
        final(c).buf@ == old(c).buf@,
        final(c).pos <= final(c).buf@.len(),
        match parse_blob(old(c).buf@, old(c).pos as int) {
            Some((x, q)) => r is Some && r->Some_0@ == x && final(c).pos == q,
            None => r is None,
        },
{
    let len = match c.read_u32() {
        Some(l) => l,
        None => return None,
    };
    match c.read_exact(len as usize) {
        Some(s) => Some(vstd::slice::slice_to_vec(s)),
        None => None,
    }
}

impl Groth16EvalSidecar {
    /// Decode the binary sidecar format.
    pub fn decode(bytes: &[u8]) -> (r: Result<Self, StoreError>)
        ensures
            sidecar_result_view(r) == sidecar_decode(bytes@),
    {
        let ghost b = bytes@;
        let mut c = Cursor::new(bytes);
        let magic = match c.read_exact(4) {
            Some(m) => m,
            None => return Err(StoreError::BadMeta("sidecar truncated")),
        };
        if magic[0] != SIDECAR_MAGIC[0] || magic[1] != SIDECAR_MAGIC[1] || magic[2]
            != SIDECAR_MAGIC[2] || magic[3] != SIDECAR_MAGIC[3] {
            proof {
                assert(b.subrange(0, 4) != SIDECAR_MAGIC@) by {
                    if b.subrange(0, 4) == SIDECAR_MAGIC@ {
                        assert(magic@[0] == SIDECAR_MAGIC@[0]);
                        assert(magic@[1] == SIDECAR_MAGIC@[1]);
                        assert(magic@[2] == SIDECAR_MAGIC@[2]);
                        assert(magic@[3] == SIDECAR_MAGIC@[3]);
                    }
                }
            }
            return Err(StoreError::BadMeta("sidecar bad magic"));
        }
        proof {
            assert(b.subrange(0, 4) =~= SIDECAR_MAGIC@);
        }
        let format = match c.read_u8() {
            Some(f) => f,
            None => return Err(StoreError::BadMeta("sidecar truncated")),
        };
        if format != SIDECAR_FORMAT_V1 {
            return Err(StoreError::BadMeta("sidecar bad format"));
        }
        let k = match c.read_u32() {
            Some(x) => x,
            None => return Err(StoreError::BadMeta("sidecar truncated")),
        };
        let flag = match c.read_u8() {
            Some(x) => x,
            None => return Err(StoreError::BadMeta("sidecar truncated")),
        };
        let vk = match read_blob(&mut c) {
            Some(x) => x,
            None => return Err(StoreError::BadMeta("sidecar truncated")),
        };
        let proof_bytes = match read_blob(&mut c) {
            Some(x) => x,
            None => return Err(StoreError::BadMeta("sidecar truncated")),
        };
        let ghost p2 = c.pos as int;
        let n_pub = match c.read_u32() {
            Some(x) => x,
            None => return Err(StoreError::BadMeta("sidecar truncated")),
        };
        let mut public: Vec<Vec<u8>> = Vec::new();
        let mut i: u32 = 0;
        while i < n_pub
            invariant
                0 <= i <= n_pub,
                c.buf@ == b,
                b == bytes@,
                c.pos <= b.len(),
                p2 + 4 <= b.len(),
                header_ends_at(b, p2),
                n_pub == le_u32_at(b, p2),
                parse_blobs(b, p2 + 4, i as nat) == Some((blobs_view(public@), c.pos as int)),
            decreases n_pub - i,
        {
            let ghost before = blobs_view(public@);
            match read_blob(&mut c) {
                Some(x) => {
                    public.push(x);
                    proof {
                        assert(blobs_view(public@) =~= before.push(x@));
                    }
                },
                None => {
                    proof {
                        lemma_parse_blobs_stays_none(b, p2 + 4, (i + 1) as nat, n_pub as nat);
                    }
                    return Err(StoreError::BadMeta("sidecar truncated"));
                },
            }
            i = i + 1;
        }
        let ghost p3 = c.pos as int;
        let n_wires = match c.read_u32() {
            Some(x) => x,
            None => return Err(StoreError::BadMeta("sidecar truncated")),
        };
        if (n_wires as u64) * 32 > (bytes.len() - c.pos) as u64 {
            return Err(StoreError::BadMeta("sidecar truncated"));
        }
        let mut wires: Vec<WireLabels> = Vec::new();
        let mut j: u32 = 0;
        while j < n_wires
            invariant
                0 <= j <= n_wires,
                c.buf@ == b,
                b == bytes@,
                c.pos == p3 + 4 + 32 * j,
                header_ends_at(b, p2),
                p2 + 4 <= b.len(),
                parse_blobs(b, p2 + 4, le_u32_at(b, p2) as nat) == Some((blobs_view(public@), p3)),
                p3 + 4 <= b.len(),
                n_wires == le_u32_at(b, p3),
                p3 + 4 + 32 * n_wires <= b.len(),
                wires@ == parse_wires(b, p3 + 4, j as nat),
            decreases n_wires - j,
        {
            let l0 = match c.read_exact(16) {
                Some(x) => copy_array16(x),
                None => return Err(StoreError::BadMeta("sidecar truncated")),
            };
            let l1 = match c.read_exact(16) {
                Some(x) => copy_array16(x),
                None => return Err(StoreError::BadMeta("sidecar truncated")),
            };
            wires.push(WireLabels { label0: l0, label1: l1 });
            proof {
                assert(wires@ =~= parse_wires(b, p3 + 4, (j + 1) as nat));
            }
            j = j + 1;
        }
        let public_params_len = match c.read_u32() {
            Some(x) => x,
            None => return Err(StoreError::BadMeta("sidecar truncated")),
        };
        let garbler_vk = match read_blob(&mut c) {
            Some(x) => x,
            None => return Err(StoreError::BadMeta("sidecar truncated")),
        };
        if !c.is_empty() {
            return Err(StoreError::BadMeta("sidecar trailing bytes"));
        }
        let sidecar = Groth16EvalSidecar {
            k,
            proof_should_verify: flag != 0,
            vk,
            proof: proof_bytes,
            public,
            input_wire_values: wires,
            public_params_len,
            garbler_vk,
        };
        Ok(sidecar)
    }
}

// ---------------------------------------------------------------------------
// Law: decoding an encoded sidecar gives it back
// ---------------------------------------------------------------------------

proof fn lemma_wires_len(w: Seq<WireLabels>)
    ensures
        wires_bytes(w).len() == 32 * w.len(),
    decreases w.len(),
{
    if w.len() > 0 {
        lemma_wires_len(w.drop_last());
    }
}

/// `b` holds `x` from position `p`.
pub open spec fn holds_at(b: Seq<u8>, p: int, x: Seq<u8>) -> bool {
    0 <= p && p + x.len() <= b.len() && b.subrange(p, p + x.len()) == x
}

proof fn lemma_holds_split(b: Seq<u8>, p: int, x: Seq<u8>, y: Seq<u8>)
    requires
        holds_at(b, p, x + y),
    ensures
        holds_at(b, p, x),
        holds_at(b, p + x.len(), y),
{
    let whole = b.subrange(p, p + (x + y).len());
    assert(whole == x + y);
    assert(b.subrange(p, p + x.len()) =~= whole.subrange(0, x.len() as int));
    assert(whole.subrange(0, x.len() as int) =~= x);
    assert(b.subrange(p + x.len(), p + x.len() + y.len()) =~= whole.subrange(
        x.len() as int,
        (x.len() + y.len()) as int,
    ));
    assert(whole.subrange(x.len() as int, (x.len() + y.len()) as int) =~= y);
}

proof fn lemma_u32_held(b: Seq<u8>, p: int, x: u32)
    requires
        holds_at(b, p, spec_u32_to_le_bytes(x)),
    ensures
        le_u32_at(b, p) == x,
{
    vstd::bytes::lemma_auto_spec_u32_to_from_le_bytes();
}

proof fn lemma_blob_held(b: Seq<u8>, p: int, x: Seq<u8>)
    requires
        x.len() <= u32::MAX,
        holds_at(b, p, blob_bytes(x)),
    ensures
        parse_blob(b, p) == Some((x, p + 4 + x.len())),
{
    vstd::bytes::lemma_auto_spec_u32_to_from_le_bytes();
    lemma_holds_split(b, p, spec_u32_to_le_bytes(x.len() as u32), x);
    lemma_u32_held(b, p, x.len() as u32);
}

proof fn lemma_blobs_held(b: Seq<u8>, p: int, s: Seq<Seq<u8>>)
    requires
        forall|i: int| 0 <= i < s.len() ==> #[trigger] s[i].len() <= u32::MAX,
        holds_at(b, p, blobs_bytes(s)),
    ensures
        parse_blobs(b, p, s.len()) == Some((s, p + blobs_bytes(s).len())),
    decreases s.len(),
{
    if s.len() == 0 {
        assert(s =~= Seq::<Seq<u8>>::empty());
    } else {
        let init = s.drop_last();
        let x = s.last();
        lemma_holds_split(b, p, blobs_bytes(init), blob_bytes(x));
        lemma_blobs_held(b, p, init);
        vstd::bytes::lemma_auto_spec_u32_to_from_le_bytes();
        lemma_blob_held(b, p + blobs_bytes(init).len(), x);
        assert(init.push(x) =~= s);
    }
}

proof fn lemma_wires_held(b: Seq<u8>, p: int, w: Seq<WireLabels>)
    requires
        holds_at(b, p, wires_bytes(w)),
    ensures
        parse_wires(b, p, w.len()) == w,
        wires_bytes(w).len() == 32 * w.len(),
    decreases w.len(),
{
    lemma_wires_len(w);
    if w.len() > 0 {
        let init = w.drop_last();
        let x = w.last();
        lemma_wires_len(init);
        assert(wires_bytes(w) =~= wires_bytes(init) + (x.label0@ + x.label1@));
        lemma_holds_split(b, p, wires_bytes(init), x.label0@ + x.label1@);
        lemma_wires_held(b, p, init);
        let q = p + 32 * init.len();
        lemma_holds_split(b, q, x.label0@, x.label1@);
        lemma_arr16_of_view(x.label0);
        lemma_arr16_of_view(x.label1);
        let got = parse_wires(b, p, w.len());
        assert forall|i: int| 0 <= i < w.len() implies got[i] == w[i] by {
            if i < init.len() {
                assert(parse_wires(b, p, init.len())[i] == init[i]);
            }
        }
        assert(got =~= w);
    }
}

/// Decoding the encoding of a sidecar whose lengths fit their prefixes gives
/// the sidecar back.
#[verifier::rlimit(40)]
pub proof fn lemma_sidecar_roundtrip(v: SidecarView)
    requires
        sidecar_encodable(v),
    ensures
        sidecar_decode(sidecar_bytes(v)) == Ok::<SidecarView, StoreError>(v),
{
    vstd::bytes::lemma_auto_spec_u32_to_from_le_bytes();
    let b = sidecar_bytes(v);
    let flag = if v.proof_should_verify {
        1u8
    } else {
        0u8
    };
    let x0 = SIDECAR_MAGIC@ + seq![SIDECAR_FORMAT_V1];
    let x1 = spec_u32_to_le_bytes(v.k) + seq![flag];
    let x2 = blob_bytes(v.vk);
    let x3 = blob_bytes(v.proof);
    let x4 = spec_u32_to_le_bytes(v.public.len() as u32);
    let x5 = blobs_bytes(v.public);
    let x6 = spec_u32_to_le_bytes(v.input_wire_values.len() as u32);
    let x7 = wires_bytes(v.input_wire_values);
    let x8 = spec_u32_to_le_bytes(v.public_params_len);
    let x9 = blob_bytes(v.garbler_vk);
    assert(b =~= x0 + (x1 + (x2 + (x3 + (x4 + (x5 + (x6 + (x7 + (x8 + x9)))))))));
    assert(b.subrange(0, b.len() as int) =~= b);
    assert(holds_at(b, 0, b));
    let p1 = x0.len() as int;
    lemma_holds_split(b, 0, x0, x1 + (x2 + (x3 + (x4 + (x5 + (x6 + (x7 + (x8 + x9))))))));
    let p2 = p1 + x1.len();
    lemma_holds_split(b, p1, x1, x2 + (x3 + (x4 + (x5 + (x6 + (x7 + (x8 + x9)))))));
    let p3 = p2 + x2.len();
    lemma_holds_split(b, p2, x2, x3 + (x4 + (x5 + (x6 + (x7 + (x8 + x9))))));
    let p4 = p3 + x3.len();
    lemma_holds_split(b, p3, x3, x4 + (x5 + (x6 + (x7 + (x8 + x9)))));
    let p5 = p4 + x4.len();
    lemma_holds_split(b, p4, x4, x5 + (x6 + (x7 + (x8 + x9))));
    let p6 = p5 + x5.len();
    lemma_holds_split(b, p5, x5, x6 + (x7 + (x8 + x9)));
    let p7 = p6 + x6.len();
    lemma_holds_split(b, p6, x6, x7 + (x8 + x9));
    let p8 = p7 + x7.len();
    lemma_holds_split(b, p7, x7, x8 + x9);
    let p9 = p8 + x8.len();
    lemma_holds_split(b, p8, x8, x9);
    // The header.
    assert(b.subrange(0, 4) =~= SIDECAR_MAGIC@) by {
        lemma_holds_split(b, 0, SIDECAR_MAGIC@, seq![SIDECAR_FORMAT_V1]);
    }
    assert(b[4] == SIDECAR_FORMAT_V1) by {
        assert(b.subrange(0, 5)[4] == x0[4]);
    }
    lemma_holds_split(b, p1, spec_u32_to_le_bytes(v.k), seq![flag]);
    lemma_u32_held(b, 5, v.k);
    assert(b[9] == flag) by {
        assert(b.subrange(9, 10)[0] == flag);
    }
    // The objects and counts.
    lemma_blob_held(b, p2, v.vk);
    lemma_blob_held(b, p3, v.proof);
    lemma_u32_held(b, p4, v.public.len() as u32);
    lemma_blobs_held(b, p5, v.public);
    lemma_u32_held(b, p6, v.input_wire_values.len() as u32);
    lemma_wires_held(b, p7, v.input_wire_values);
    lemma_u32_held(b, p8, v.public_params_len);
    lemma_blob_held(b, p9, v.garbler_vk);
    assert(p9 + x9.len() == b.len());
}

} // verus!
