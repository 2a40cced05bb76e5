//! Wide-label / share reconstruction for Phase C.
//!
//! Without the upstream VSSS path, the reconstructed seed is a domain-separated
//! hash of the share bundle and the adaptor share (Phase B stand-in).

use crate::hashing::{
    append_bytes, sha256, sha256_of, TAG_PHASE_C_SHARE0, TAG_PHASE_C_SHARE1,
    TAG_PHASE_C_VSSS_STAND_IN,
};
use vstd::bytes::{spec_u32_to_le_bytes, u32_to_le_bytes};
use crate::phase_b::gsv_adaptor::{be32_bytes, fr_of, fr_reduce, lemma_bytes_are_be32_of_value};
use vstd::prelude::*;

verus! {

/// Compact share bundle published at cut-and-choose setup (check set).
#[derive(Clone, Debug, PartialEq, Eq)]
pub struct ShareBundle {
    pub n: u32,
    pub threshold: u32,
    /// Check-set shares: `(index, 32-byte field element)`.
    pub check_shares: Vec<(u32, [u8; 32])>,
    /// Index opened via adaptor on Assert.
    pub adaptor_index: u32,
}

/// The mathematical content of a [`ShareBundle`].
pub struct ShareBundleView {
    pub n: u32,
    pub threshold: u32,
    pub check_shares: Seq<(u32, [u8; 32])>,
    pub adaptor_index: u32,
}

impl View for ShareBundle {
    type V = ShareBundleView;

    open spec fn view(&self) -> ShareBundleView {
        ShareBundleView {
            n: self.n,
            threshold: self.threshold,
            check_shares: self.check_shares@,
            adaptor_index: self.adaptor_index,
        }
    }
}

/// The bytes of a share list: each share as `index (LE u32) || 32 bytes`.
pub open spec fn share_list_bytes(shares: Seq<(u32, [u8; 32])>) -> Seq<u8>
    decreases shares.len(),
{
    if shares.len() == 0 {
        Seq::empty()
    } else {
        share_list_bytes(shares.drop_last()) + spec_u32_to_le_bytes(shares.last().0)
            + shares.last().1@
    }
}

/// Appends the bytes of `shares` to `out`.
pub fn append_share_list(out: &mut Vec<u8>, shares: &Vec<(u32, [u8; 32])>)
    ensures
        final(out)@ == old(out)@ + share_list_bytes(shares@),
{
    let ghost start = out@;
    let mut k: usize = 0;
    while k < shares.len()
        invariant
            0 <= k <= shares@.len(),
            out@ == start + share_list_bytes(shares@.take(k as int)),
        decreases shares@.len() - k,
    {
        let (i, s) = shares[k];
        let le = u32_to_le_bytes(i);
        append_bytes(out, le.as_slice());
        append_bytes(out, &s);
        proof {
            assert(shares@.take(k + 1).drop_last() =~= shares@.take(k as int));
            assert(out@ =~= start + share_list_bytes(shares@.take(k + 1)));
        }
        k = k + 1;
    }
    proof {
        assert(shares@.take(shares@.len() as int) =~= shares@);
    }
}

/// The bytes hashed into the stand-in reconstructed seed.
pub open spec fn stand_in_seed_preimage(b: ShareBundleView, adaptor_share: [u8; 32]) -> Seq<u8> {
    TAG_PHASE_C_VSSS_STAND_IN@ + spec_u32_to_le_bytes(b.n) + spec_u32_to_le_bytes(b.threshold)
        + spec_u32_to_le_bytes(b.adaptor_index) + share_list_bytes(b.check_shares)
        + adaptor_share@
}

/// The reconstructed evaluation seed: the adaptor share itself without a
/// bundle, otherwise a hash folding in the whole bundle.
pub open spec fn reconstructed_seed(bundle: Option<ShareBundleView>, adaptor_share: [u8; 32]) -> [u8; 32] {
    match bundle {
        None => adaptor_share,
        Some(b) => sha256_of(stand_in_seed_preimage(b, adaptor_share)),
    }
}

/// Stand-in reconstruct: hash of the bundle fields, the check shares and the adaptor share.
pub fn reconstruct(bundle: &ShareBundle, adaptor_share: &[u8; 32]) -> (seed: [u8; 32])
    ensures
        seed == sha256_of(stand_in_seed_preimage(bundle@, *adaptor_share)),
{
    let mut buf: Vec<u8> = Vec::new();
    append_bytes(&mut buf, &TAG_PHASE_C_VSSS_STAND_IN);
    let a = u32_to_le_bytes(bundle.n);
    append_bytes(&mut buf, a.as_slice());
    let b = u32_to_le_bytes(bundle.threshold);
    append_bytes(&mut buf, b.as_slice());
    let c = u32_to_le_bytes(bundle.adaptor_index);
    append_bytes(&mut buf, c.as_slice());
    append_share_list(&mut buf, &bundle.check_shares);
    append_bytes(&mut buf, adaptor_share);
    sha256(buf.as_slice())
}

/// Reconstruct the evaluation seed / wide-label material from the optional
/// check-set bundle and the 32-byte secret recovered from the opening.
pub fn reconstruct_label_seed(bundle: Option<&ShareBundle>, adaptor_share: &[u8; 32]) -> (seed: [u8;
    32])
    ensures
        seed == reconstructed_seed(
            match bundle {
                Some(b) => Some(b@),
                None => None,
            },
            *adaptor_share,
        ),
{
    match bundle {
        None => *adaptor_share,
        Some(b) => reconstruct(b, adaptor_share),
    }
}

/// The check shares of the synthetic demo bundle.
pub open spec fn synthetic_shares(adaptor_secret: [u8; 32]) -> Seq<(u32, [u8; 32])> {
    seq![
        (0u32, sha256_of(TAG_PHASE_C_SHARE0@ + adaptor_secret@)),
        (1u32, sha256_of(TAG_PHASE_C_SHARE1@ + adaptor_secret@)),
    ]
}

impl ShareBundle {
    /// Minimal synthetic bundle for demos: `n = 3`, `threshold = 2`, two hashed
    /// check shares at indices 0 and 1, adaptor index 2.
    pub fn synthetic_from_adaptor_secret(adaptor_secret: &[u8; 32]) -> (b: Self)
        ensures
            b.n == 3,
            b.threshold == 2,
            b.adaptor_index == 2,
            b.check_shares@ == synthetic_shares(*adaptor_secret),
    {
        let mut buf0: Vec<u8> = Vec::new();
        append_bytes(&mut buf0, &TAG_PHASE_C_SHARE0);
        append_bytes(&mut buf0, adaptor_secret);
        let s0 = sha256(buf0.as_slice());
        let mut buf1: Vec<u8> = Vec::new();
        append_bytes(&mut buf1, &TAG_PHASE_C_SHARE1);
        append_bytes(&mut buf1, adaptor_secret);
        let s1 = sha256(buf1.as_slice());
        let mut check_shares: Vec<(u32, [u8; 32])> = Vec::new();
        check_shares.push((0u32, s0));
        check_shares.push((1u32, s1));
        proof {
            assert(check_shares@ =~= synthetic_shares(*adaptor_secret));
        }
        ShareBundle { n: 3, threshold: 2, check_shares, adaptor_index: 2 }
    }
}

/// Convert a big-endian scalar share (as a GSV-compatible adaptor opening
/// reveals it) to the little-endian 32-byte form of share bundles, reduced
/// modulo the group order.
pub fn adaptor_share_from_gsv_fr_be(fr_be: &[u8; 32]) -> (le: [u8; 32])
    ensures
        le@ == be32_bytes(fr_of(fr_be@)).reverse(),
{
    let be = fr_reduce(fr_be);
    let mut le = [0u8; 32];
    let mut i: usize = 0;
    while i < 32
        invariant
            0 <= i <= 32,
            forall|j: int| 0 <= j < i ==> le@[j] == be@[31 - j],
        decreases 32 - i,
    {
        le[i] = be[31 - i];
        i = i + 1;
    }
    proof {
        lemma_bytes_are_be32_of_value(be@);
        assert(le@ =~= be@.reverse());
    }
    le
}

} // verus!
