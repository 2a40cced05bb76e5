//! End-to-end Phase A flow.
//!
//! Backend-agnostic: Assert / Disprove / Timeout templates stay fixed while the
//! [`CircuitBackend`] swaps the evaluation engine.

use crate::backend::{
    hashlock_commit, hashlock_of, result_opens, CircuitBackend, ClaimMiniBackend, EvaluationResult,
};
use crate::claim_mini::ClaimMini;
use crate::hashing::{append_bytes, eq32, sha256_of};
use crate::phase_a::opening::{direct_seed_of, DirectSeedOpening};
use crate::tx_templates::{
    assert_template, disprove_template, timeout_template, AssertTemplate, DisproveTemplate,
    TimeoutTemplate, DEFAULT_DISPUTE_WINDOW,
};
use crate::wire::{lemma_arr32_of_view, to_array32};
use vstd::bytes::{
    lemma_auto_spec_u64_to_from_le_bytes, spec_u64_to_le_bytes, u64_from_le_bytes, u64_to_le_bytes,
};
use vstd::prelude::*;

verus! {

/// The deterministic serialization of a claim:
/// `h_old || h_new || total_in (LE) || total_out (LE) || t1 || t2 || t3 || t4`.
pub open spec fn claim_bytes_of(c: ClaimMini) -> Seq<u8> {
    c.h_old@ + c.h_new@ + spec_u64_to_le_bytes(c.total_in) + spec_u64_to_le_bytes(c.total_out)
        + c.t1@ + c.t2@ + c.t3@ + c.t4@
}

/// Minimal deterministic serialization of a claim (208 bytes).
pub fn serialize_claim(claim: &ClaimMini) -> (buf: Vec<u8>)
    ensures
        buf@ == claim_bytes_of(*claim),
{
    let mut buf: Vec<u8> = Vec::with_capacity(176);
    append_bytes(&mut buf, &claim.h_old);
    append_bytes(&mut buf, &claim.h_new);
    let a = u64_to_le_bytes(claim.total_in);
    append_bytes(&mut buf, a.as_slice());
    let b = u64_to_le_bytes(claim.total_out);
    append_bytes(&mut buf, b.as_slice());
    append_bytes(&mut buf, &claim.t1);
    append_bytes(&mut buf, &claim.t2);
    append_bytes(&mut buf, &claim.t3);
    append_bytes(&mut buf, &claim.t4);
    buf
}

/// Length of a serialized claim.
pub const CLAIM_BYTES_LEN: usize = 208;

/// Parse a serialized claim: exactly [`CLAIM_BYTES_LEN`] bytes in the layout
/// of [`serialize_claim`].
pub fn deserialize_claim(bytes: &[u8]) -> (r: Option<ClaimMini>)
    ensures
        r is Some <==> bytes@.len() == CLAIM_BYTES_LEN,
        r matches Some(c) ==> claim_bytes_of(c) == bytes@,
{
    if bytes.len() != CLAIM_BYTES_LEN {
        return None;
    }
    let h_old = to_array32(vstd::slice::slice_subrange(bytes, 0, 32));
    let h_new = to_array32(vstd::slice::slice_subrange(bytes, 32, 64));
    let total_in = u64_from_le_bytes(vstd::slice::slice_subrange(bytes, 64, 72));
    let total_out = u64_from_le_bytes(vstd::slice::slice_subrange(bytes, 72, 80));
    let t1 = to_array32(vstd::slice::slice_subrange(bytes, 80, 112));
    let t2 = to_array32(vstd::slice::slice_subrange(bytes, 112, 144));
    let t3 = to_array32(vstd::slice::slice_subrange(bytes, 144, 176));
    let t4 = to_array32(vstd::slice::slice_subrange(bytes, 176, 208));
    let c = ClaimMini { h_old, h_new, total_in, total_out, t1, t2, t3, t4 };
    proof {
        lemma_auto_spec_u64_to_from_le_bytes();
        assert(claim_bytes_of(c) =~= bytes@);
    }
    Some(c)
}

/// A serialization determines its claim: with the contract of
/// [`deserialize_claim`], parsing the serialization of `c` gives `c` back.
pub proof fn lemma_claim_bytes_roundtrip(c: ClaimMini)
    ensures
        claim_bytes_of(c).len() == CLAIM_BYTES_LEN,
        forall|d: ClaimMini| #[trigger] claim_bytes_of(d) == claim_bytes_of(c) ==> d == c,
{
    lemma_auto_spec_u64_to_from_le_bytes();
    assert forall|d: ClaimMini| #[trigger] claim_bytes_of(d) == claim_bytes_of(c) implies d == c by {
        let b = claim_bytes_of(c);
        let e = claim_bytes_of(d);
        assert(b.subrange(0, 32) =~= c.h_old@);
        assert(e.subrange(0, 32) =~= d.h_old@);
        assert(b.subrange(32, 64) =~= c.h_new@);
        assert(e.subrange(32, 64) =~= d.h_new@);
        assert(b.subrange(64, 72) =~= spec_u64_to_le_bytes(c.total_in));
        assert(e.subrange(64, 72) =~= spec_u64_to_le_bytes(d.total_in));
        assert(b.subrange(72, 80) =~= spec_u64_to_le_bytes(c.total_out));
        assert(e.subrange(72, 80) =~= spec_u64_to_le_bytes(d.total_out));
        assert(b.subrange(80, 112) =~= c.t1@);
        assert(e.subrange(80, 112) =~= d.t1@);
        assert(b.subrange(112, 144) =~= c.t2@);
        assert(e.subrange(112, 144) =~= d.t2@);
        assert(b.subrange(144, 176) =~= c.t3@);
        assert(e.subrange(144, 176) =~= d.t3@);
        assert(b.subrange(176, 208) =~= c.t4@);
        assert(e.subrange(176, 208) =~= d.t4@);
        lemma_arr32_of_view(c.h_old);
        lemma_arr32_of_view(d.h_old);
        lemma_arr32_of_view(c.h_new);
        lemma_arr32_of_view(d.h_new);
        lemma_arr32_of_view(c.t1);
        lemma_arr32_of_view(d.t1);
        lemma_arr32_of_view(c.t2);
        lemma_arr32_of_view(d.t2);
        lemma_arr32_of_view(c.t3);
        lemma_arr32_of_view(d.t3);
        lemma_arr32_of_view(c.t4);
        lemma_arr32_of_view(d.t4);
    }
}

/// The Phase A opening the Engine publishes for a claim (instance 0).
pub open spec fn phase_a_opening_of(claim: ClaimMini) -> DirectSeedOpening {
    DirectSeedOpening {
        version: DirectSeedOpening::VERSION_PHASE_A,
        instance_id: 0,
        seed: direct_seed_of(0, claim_bytes_of(claim)),
        public_inputs_hash: sha256_of(claim_bytes_of(claim)),
    }
}

/// Dispute flow parameterized by a circuit backend.
pub struct PhaseAFlow<B: CircuitBackend = ClaimMiniBackend> {
    backend: B,
}

impl Default for PhaseAFlow<ClaimMiniBackend> {
    /// A flow over the default [`ClaimMiniBackend`].
    fn default() -> (f: Self)
        ensures
            f.spec_backend() == ClaimMiniBackend,
    {
        Self::new(ClaimMiniBackend)
    }
}

impl PhaseAFlow<ClaimMiniBackend> {
    /// Engine create with the default [`ClaimMiniBackend`].
    pub fn engine_create_assert_default(claim: &ClaimMini, funding_outpoint: &str) -> (r: (
        AssertTemplate,
        DirectSeedOpening,
        [u8; 32],
    ))
        ensures
            r.0.funding_outpoint@ == funding_outpoint@,
            r.0.claim == *claim,
            r.0.hash_of_false_label == r.2,
            r.0.dispute_window == DEFAULT_DISPUTE_WINDOW,
            r.1 == phase_a_opening_of(*claim),
            r.2 == ClaimMiniBackend.committed_hashlock(*claim),
    {
        Self::default().engine_create_assert(claim, funding_outpoint)
    }

    /// Challenger evaluate with the default [`ClaimMiniBackend`].
    pub fn challenger_evaluate_default(
        claim: &ClaimMini,
        opening: &DirectSeedOpening,
        committed_h_l_invalid: &[u8; 32],
    ) -> (r: EvaluationResult)
        requires
            result_opens(ClaimMiniBackend.evaluation(*claim), *committed_h_l_invalid),
        ensures
            r == ClaimMiniBackend.evaluation(*claim),
    {
        Self::default().challenger_evaluate(claim, opening, committed_h_l_invalid)
    }
}

impl<B: CircuitBackend<Claim = ClaimMini>> PhaseAFlow<B> {
    /// The backend of a flow.
    pub closed spec fn spec_backend(&self) -> B {
        self.backend
    }

    /// Create a flow with the given circuit backend.
    pub fn new(backend: B) -> (f: Self)
        ensures
            f.spec_backend() == backend,
    {
        Self { backend }
    }

    /// Borrow the active backend.
    pub fn backend(&self) -> (b: &B)
        ensures
            *b == self.spec_backend(),
    {
        &self.backend
    }

    /// Engine side: create the Assert template, the Phase A opening and the
    /// hashlock commitment of the backend.
    pub fn engine_create_assert(&self, claim: &ClaimMini, funding_outpoint: &str) -> (r: (
        AssertTemplate,
        DirectSeedOpening,
        [u8; 32],
    ))
        ensures
            r.0.funding_outpoint@ == funding_outpoint@,
            r.0.claim == *claim,
            r.0.hash_of_false_label == r.2,
            r.0.dispute_window == DEFAULT_DISPUTE_WINDOW,
            r.1 == phase_a_opening_of(*claim),
            r.2 == self.spec_backend().committed_hashlock(*claim),
    {
        let claim_bytes = serialize_claim(claim);
        let opening = DirectSeedOpening::from_claim_bytes(0, claim_bytes.as_slice());
        let h_l_invalid = self.backend.commit_l_invalid(claim);
        let assert_tmpl = assert_template(funding_outpoint, *claim, h_l_invalid);
        (assert_tmpl, opening, h_l_invalid)
    }

    /// Challenger side: evaluate via the configured backend. An `Invalid`
    /// label that does not open the committed hashlock is a broken protocol
    /// run on which the challenger stops; such inputs are excluded here (see
    /// [`Self::checked_challenger_evaluate`]).
    pub fn challenger_evaluate(
        &self,
        claim: &ClaimMini,
        opening: &DirectSeedOpening,
        committed_h_l_invalid: &[u8; 32],
    ) -> (r: EvaluationResult)
        requires
            result_opens(self.spec_backend().evaluation(*claim), *committed_h_l_invalid),
        ensures
            r == self.spec_backend().evaluation(*claim),
    {
        self.backend.evaluate(claim, opening)
    }

    /// Challenger evaluation that reports a label not opening the committed
    /// hashlock as `None` instead of aborting.
    pub fn checked_challenger_evaluate(
        &self,
        claim: &ClaimMini,
        opening: &DirectSeedOpening,
        committed_h_l_invalid: &[u8; 32],
    ) -> (r: Option<EvaluationResult>)
        ensures
            r == (if result_opens(
                self.spec_backend().evaluation(*claim),
                *committed_h_l_invalid,
            ) {
                Some(self.spec_backend().evaluation(*claim))
            } else {
                None
            }),
    {
        let result = self.backend.evaluate(claim, opening);
        match result {
            EvaluationResult::Valid => Some(result),
            EvaluationResult::Invalid { l_invalid } => {
                let h = hashlock_commit(&l_invalid);
                if eq32(&h, committed_h_l_invalid) {
                    Some(result)
                } else {
                    None
                }
            },
        }
    }

    /// Build a Disprove template when evaluation returned `Invalid`.
    pub fn build_disprove(assert_outpoint: &str, l_invalid: [u8; 32], slash_destination: &str) -> (d:
        DisproveTemplate)
        ensures
            d.assert_outpoint@ == assert_outpoint@,
            d.false_label == l_invalid,
            d.slash_destination@ == slash_destination@,
    {
        disprove_template(assert_outpoint, l_invalid, slash_destination)
    }

    /// Build a Timeout template (Engine side, after the dispute window).
    pub fn build_timeout(assert_outpoint: &str, reserve_outpoint: &str, engine_pubkey: &str) -> (t:
        TimeoutTemplate)
        ensures
            t.assert_outpoint@ == assert_outpoint@,
            t.reserve_outpoint@ == reserve_outpoint@,
            t.engine_pubkey@ == engine_pubkey@,
    {
        timeout_template(assert_outpoint, reserve_outpoint, engine_pubkey)
    }
}

/// The Engine's commitment and an honest challenger agree: whatever claim is
/// asserted, evaluating it against the opening and commitment produced by
/// `engine_create_assert` never trips the hashlock check, and an `Invalid`
/// result carries a label that opens the committed hashlock.
pub proof fn lemma_engine_commitment_opens<B: CircuitBackend<Claim = ClaimMini>>(
    backend: B,
    claim: ClaimMini,
)
    ensures
        result_opens(
            backend.evaluation(claim),
            backend.committed_hashlock(claim),
        ),
{
    backend.lemma_invalid_opens_commitment(claim);
}

} // verus!
