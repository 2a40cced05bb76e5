//! Claim Mini: the first concrete verification circuit.
//!
//! Statement:
//!   `H_new == SHA256( H_old || t1 || t2 || t3 || t4 )` and `total_out <= total_in`.

use crate::hashing::{append_bytes, eq32, sha256, sha256_of, TAG_L_STAR_SIMULATION};
use vstd::prelude::*;

verus! {

/// All public inputs of Claim Mini.
#[derive(Clone, Copy, Debug, PartialEq, Eq)]
pub struct ClaimMini {
    pub h_old: [u8; 32],
    pub h_new: [u8; 32],
    pub total_in: u64,
    pub total_out: u64,
    pub t1: [u8; 32],
    pub t2: [u8; 32],
    pub t3: [u8; 32],
    pub t4: [u8; 32],
}

/// The bytes that are hashed into the new root: `h_old || t1 || t2 || t3 || t4`.
pub open spec fn claim_preimage(c: ClaimMini) -> Seq<u8> {
    c.h_old@ + c.t1@ + c.t2@ + c.t3@ + c.t4@
}

/// The root a claim commits to.
pub open spec fn claim_root(c: ClaimMini) -> [u8; 32] {
    sha256_of(claim_preimage(c))
}

/// Whether a claim satisfies the Claim Mini statement.
pub open spec fn claim_valid(c: ClaimMini) -> bool {
    c.total_out <= c.total_in && claim_root(c) == c.h_new
}

/// The simulated false-output label `L*` of a claim.
pub open spec fn claim_false_label(c: ClaimMini) -> [u8; 32] {
    sha256_of(TAG_L_STAR_SIMULATION@ + claim_preimage(c))
}

impl ClaimMini {
    /// Serialize the claim into the exact preimage that is hashed.
    pub fn preimage(&self) -> (buf: Vec<u8>)
        ensures
            buf@ == claim_preimage(*self),
    {
        let mut buf: Vec<u8> = Vec::with_capacity(160);
        append_bytes(&mut buf, &self.h_old);
        append_bytes(&mut buf, &self.t1);
        append_bytes(&mut buf, &self.t2);
        append_bytes(&mut buf, &self.t3);
        append_bytes(&mut buf, &self.t4);
        buf
    }

    /// Recompute the state root.
    pub fn compute_root(&self) -> (root: [u8; 32])
        ensures
            root == claim_root(*self),
    {
        let p = self.preimage();
        sha256(p.as_slice())
    }

    /// The core verification function (what the circuit computes):
    /// `true` if and only if the claim is valid.
    pub fn verify(&self) -> (ok: bool)
        ensures
            ok == claim_valid(*self),
    {
        let balance_ok = self.total_out <= self.total_in;
        let root = self.compute_root();
        let root_ok = eq32(&root, &self.h_new);
        balance_ok && root_ok
    }

    /// Create a claim whose `h_new` is the root of the given previous root and transfers.
    pub fn make_valid(
        h_old: [u8; 32],
        total_in: u64,
        total_out: u64,
        t1: [u8; 32],
        t2: [u8; 32],
        t3: [u8; 32],
        t4: [u8; 32],
    ) -> (claim: Self)
        ensures
            claim.h_old == h_old,
            claim.total_in == total_in,
            claim.total_out == total_out,
            claim.t1 == t1,
            claim.t2 == t2,
            claim.t3 == t3,
            claim.t4 == t4,
            claim.h_new == claim_root(claim),
            claim_valid(claim) <==> total_out <= total_in,
    {
        let mut claim = ClaimMini {
            h_old,
            h_new: [0u8; 32],
            total_in,
            total_out,
            t1,
            t2,
            t3,
            t4,
        };
        claim.h_new = claim.compute_root();
        claim
    }
}

/// Simulation of the final output wire: the Boolean result and the idea of `L*`.
#[derive(Clone, Copy, Debug)]
pub struct OutputWire {
    pub value: bool,
    /// Stand-in for the 32-byte label corresponding to `false`.
    pub false_label_placeholder: [u8; 32],
}

impl OutputWire {
    /// Evaluate the claim and attach its deterministic false label.
    pub fn from_claim(claim: &ClaimMini) -> (wire: Self)
        ensures
            wire.value == claim_valid(*claim),
            wire.false_label_placeholder == claim_false_label(*claim),
    {
        let value = claim.verify();
        let mut buf: Vec<u8> = Vec::new();
        append_bytes(&mut buf, &TAG_L_STAR_SIMULATION);
        let p = claim.preimage();
        append_bytes(&mut buf, p.as_slice());
        let false_label_placeholder = sha256(buf.as_slice());
        OutputWire { value, false_label_placeholder }
    }

    /// `Some(L*)` if and only if the claim is invalid.
    pub fn fraud_secret(&self) -> (r: Option<[u8; 32]>)
        ensures
            r == (if self.value { None } else { Some(self.false_label_placeholder) }),
    {
        if !self.value {
            Some(self.false_label_placeholder)
        } else {
            None
        }
    }
}

/// A wire built from a claim reveals a fraud secret exactly when the claim is
/// invalid, and that secret is the claim's false label.
pub proof fn lemma_fraud_secret_iff_invalid(claim: ClaimMini, wire: OutputWire)
    requires
        wire.value == claim_valid(claim),
        wire.false_label_placeholder == claim_false_label(claim),
    ensures
        (if wire.value { None } else { Some(wire.false_label_placeholder) }) == (if claim_valid(
            claim,
        ) {
            None::<[u8; 32]>
        } else {
            Some(claim_false_label(claim))
        }),
{
}


/// The claim root is SHA-256 of exactly `h_old || t1 || t2 || t3 || t4`: the
/// hashed bytes are 160 long with each field at its own 32-byte offset, in
/// that order, and a claim is valid exactly when its new root is the hash of
/// those bytes and its outputs do not exceed its inputs.
pub proof fn lemma_claim_root_layout(c: ClaimMini)
    ensures
        claim_preimage(c).len() == 160,
        claim_preimage(c).subrange(0, 32) == c.h_old@,
        claim_preimage(c).subrange(32, 64) == c.t1@,
        claim_preimage(c).subrange(64, 96) == c.t2@,
        claim_preimage(c).subrange(96, 128) == c.t3@,
        claim_preimage(c).subrange(128, 160) == c.t4@,
        claim_root(c) == sha256_of(claim_preimage(c)),
        claim_valid(c) <==> (c.total_out <= c.total_in && c.h_new == sha256_of(claim_preimage(c))),
{
    let p = claim_preimage(c);
    assert(p.subrange(0, 32) =~= c.h_old@);
    assert(p.subrange(32, 64) =~= c.t1@);
    assert(p.subrange(64, 96) =~= c.t2@);
    assert(p.subrange(96, 128) =~= c.t3@);
    assert(p.subrange(128, 160) =~= c.t4@);
}

/// Two claims hash the same bytes into their roots exactly when they agree on
/// `h_old`, `t1`, `t2`, `t3` and `t4`: every one of the five fields is bound.
pub proof fn lemma_claim_preimage_binds_fields(c: ClaimMini, d: ClaimMini)
    ensures
        claim_preimage(c) == claim_preimage(d) <==> (c.h_old == d.h_old && c.t1 == d.t1 && c.t2
            == d.t2 && c.t3 == d.t3 && c.t4 == d.t4),
{
    if claim_preimage(c) == claim_preimage(d) {
        lemma_claim_root_layout(c);
        lemma_claim_root_layout(d);
        lemma_array32_eq(c.h_old, d.h_old);
        lemma_array32_eq(c.t1, d.t1);
        lemma_array32_eq(c.t2, d.t2);
        lemma_array32_eq(c.t3, d.t3);
        lemma_array32_eq(c.t4, d.t4);
    }
}

proof fn lemma_array32_eq(a: [u8; 32], b: [u8; 32])
    requires
        a@ == b@,
    ensures
        a == b,
{
    broadcast use vstd::array::group_array_axioms;

    assert forall|j: int| 0 <= j < 32 implies a[j] == b[j] by {
        assert(a@[j] == b@[j]);
    }
    assert(a =~= b);
}

} // verus!
