//! Phase B extractable opening: Schnorr adaptor offset.

use crate::hashing::{append_bytes, sha256, sha256_of, TAG_PHASE_B_LABELS, TAG_PHASE_B_MESSAGE};
use crate::phase_b::adaptor::{
    adapted_signature_fails, adapted_signature_ok, complete_and_extract, complete_outcome,
    create_adapted_signature, is_secret_scalar, lemma_extract_recovers_adaptor_secret,
    random_secret_key, AdaptedSignature, AdaptorError,
};
use vstd::prelude::*;

verus! {

/// Assert-witness opening that reveals label material via adaptor extraction.
#[derive(Clone, Copy, Debug, PartialEq, Eq)]
pub struct AdaptorOpening {
    /// Protocol version (`VERSION_PHASE_B`).
    pub version: u8,
    /// Evaluation instance id.
    pub instance_id: u32,
    /// Engine x-only pubkey that produced the completed BIP340 signature.
    pub signer_xonly: [u8; 32],
    /// Adaptor point `T = t·G` (x-only).
    pub adaptor_point: [u8; 32],
    /// BIP340 nonce `R.x`.
    pub nonce_x: [u8; 32],
    /// Adapted scalar `s' = s − t`.
    pub adapted_s: [u8; 32],
    /// Completed BIP340 scalar `s` (revealed in Assert).
    pub completed_s: [u8; 32],
    /// 32-byte message the signature covers.
    pub message: [u8; 32],
    /// Hash of the public claim bytes.
    pub public_inputs_hash: [u8; 32],
}

/// The domain-separated message bound to a claim hash.
pub open spec fn claim_message_of(public_inputs_hash: [u8; 32]) -> [u8; 32] {
    sha256_of(TAG_PHASE_B_MESSAGE@ + public_inputs_hash@)
}

/// The adapted-signature view of an opening.
pub open spec fn adapted_of(o: AdaptorOpening) -> AdaptedSignature {
    AdaptedSignature {
        signer_xonly: o.signer_xonly,
        adaptor_point: o.adaptor_point,
        nonce_x: o.nonce_x,
        adapted_s: o.adapted_s,
        completed_s: o.completed_s,
        message: o.message,
    }
}

/// The opening that packages adapted signature material.
pub open spec fn opening_from_adapted(
    instance_id: u32,
    public_inputs_hash: [u8; 32],
    a: AdaptedSignature,
) -> AdaptorOpening {
    AdaptorOpening {
        version: AdaptorOpening::VERSION_PHASE_B,
        instance_id,
        signer_xonly: a.signer_xonly,
        adaptor_point: a.adaptor_point,
        nonce_x: a.nonce_x,
        adapted_s: a.adapted_s,
        completed_s: a.completed_s,
        message: a.message,
        public_inputs_hash,
    }
}

/// Label material derived from an extracted adaptor secret.
pub open spec fn adaptor_labels_of(t: [u8; 32]) -> [u8; 32] {
    sha256_of(TAG_PHASE_B_LABELS@ + t@)
}

/// The outcome of deriving label material from an opening.
pub open spec fn adaptor_label_outcome(o: AdaptorOpening) -> Result<[u8; 32], AdaptorError> {
    match complete_outcome(adapted_of(o)) {
        Ok(t) => Ok(adaptor_labels_of(t)),
        Err(e) => Err(e),
    }
}

/// `o` is the opening produced for `claim_bytes` by `signer` with adaptor secret `t`.
pub open spec fn adaptor_opening_for(
    o: AdaptorOpening,
    instance_id: u32,
    claim_bytes: Seq<u8>,
    signer: [u8; 32],
    t: [u8; 32],
) -> bool {
    let pih = sha256_of(claim_bytes);
    exists|a: AdaptedSignature|
        adapted_signature_ok(a, signer, claim_message_of(pih), t) && o == opening_from_adapted(
            instance_id,
            pih,
            a,
        )
}

impl AdaptorOpening {
    /// Protocol version of Phase B adaptor openings.
    pub const VERSION_PHASE_B: u8 = 2;

    /// Domain-separated message bound to the claim hash.
    pub fn claim_message(public_inputs_hash: &[u8; 32]) -> (m: [u8; 32])
        ensures
            m == claim_message_of(*public_inputs_hash),
    {
        let mut buf: Vec<u8> = Vec::new();
        append_bytes(&mut buf, &TAG_PHASE_B_MESSAGE);
        append_bytes(&mut buf, public_inputs_hash);
        sha256(buf.as_slice())
    }

    /// Build an adaptor opening for `claim_bytes` under `signer` with the given
    /// adaptor secret.
    pub fn create_with_secret(
        instance_id: u32,
        claim_bytes: &[u8],
        signer: &[u8; 32],
        adaptor_secret: &[u8; 32],
    ) -> (r: Result<Self, AdaptorError>)
        requires
            is_secret_scalar(*signer),
            is_secret_scalar(*adaptor_secret),
        ensures
            r is Err <==> adapted_signature_fails(
                *signer,
                claim_message_of(sha256_of(claim_bytes@)),
                *adaptor_secret,
            ),
            r matches Err(e) ==> e == AdaptorError::BadSecret,
            r matches Ok(o) ==> adaptor_opening_for(
                o,
                instance_id,
                claim_bytes@,
                *signer,
                *adaptor_secret,
            ),
    {
        let public_inputs_hash = sha256(claim_bytes);
        let message = Self::claim_message(&public_inputs_hash);
        match create_adapted_signature(signer, &message, adaptor_secret) {
            Err(e) => Err(e),
            Ok(adapted) => Ok(Self::from_adapted(instance_id, public_inputs_hash, adapted)),
        }
    }

    /// Build an adaptor opening for `claim_bytes` under `signer`, sampling a
    /// fresh adaptor secret.
    pub fn create(instance_id: u32, claim_bytes: &[u8], signer: &[u8; 32]) -> (r: Result<
        Self,
        AdaptorError,
    >)
        requires
            is_secret_scalar(*signer),
        ensures
            r matches Err(e) ==> e == AdaptorError::BadSecret,
            r matches Ok(o) ==> exists|t: [u8; 32]|
                is_secret_scalar(t) && adaptor_opening_for(o, instance_id, claim_bytes@, *signer, t),
    {
        let adaptor_secret = random_secret_key();
        Self::create_with_secret(instance_id, claim_bytes, signer, &adaptor_secret)
    }

    /// Fresh Engine key + opening (simulation / tests); returns the Engine's secret key.
    pub fn create_ephemeral(instance_id: u32, claim_bytes: &[u8]) -> (r: Result<
        (Self, [u8; 32]),
        AdaptorError,
    >)
        ensures
            r matches Err(e) ==> e == AdaptorError::BadSecret,
            r matches Ok(p) ==> is_secret_scalar(p.1) && exists|t: [u8; 32]|
                is_secret_scalar(t) && adaptor_opening_for(p.0, instance_id, claim_bytes@, p.1, t),
    {
        let signer = random_secret_key();
        match Self::create(instance_id, claim_bytes, &signer) {
            Err(e) => Err(e),
            Ok(o) => Ok((o, signer)),
        }
    }

    /// Package adapted signature material as an opening.
    pub fn from_adapted(instance_id: u32, public_inputs_hash: [u8; 32], adapted: AdaptedSignature) -> (o:
        Self)
        ensures
            o == opening_from_adapted(instance_id, public_inputs_hash, adapted),
    {
        AdaptorOpening {
            version: AdaptorOpening::VERSION_PHASE_B,
            instance_id,
            signer_xonly: adapted.signer_xonly,
            adaptor_point: adapted.adaptor_point,
            nonce_x: adapted.nonce_x,
            adapted_s: adapted.adapted_s,
            completed_s: adapted.completed_s,
            message: adapted.message,
            public_inputs_hash,
        }
    }

    /// The adapted signature material carried by the opening.
    pub fn as_adapted(&self) -> (a: AdaptedSignature)
        ensures
            a == adapted_of(*self),
    {
        AdaptedSignature {
            signer_xonly: self.signer_xonly,
            adaptor_point: self.adaptor_point,
            nonce_x: self.nonce_x,
            adapted_s: self.adapted_s,
            completed_s: self.completed_s,
            message: self.message,
        }
    }

    /// Recover adaptor secret `t` (verifies point + completed signature).
    pub fn extract_secret(&self) -> (r: Result<[u8; 32], AdaptorError>)
        ensures
            r == complete_outcome(adapted_of(*self)),
    {
        complete_and_extract(&self.as_adapted())
    }

    /// Derive label material from the extracted adaptor secret.
    pub fn derive_label_material(&self) -> (r: Result<[u8; 32], AdaptorError>)
        ensures
            r == adaptor_label_outcome(*self),
    {
        match self.extract_secret() {
            Err(e) => Err(e),
            Ok(t) => {
                let mut buf: Vec<u8> = Vec::new();
                append_bytes(&mut buf, &TAG_PHASE_B_LABELS);
                append_bytes(&mut buf, &t);
                Ok(sha256(buf.as_slice()))
            },
        }
    }
}

/// An opening created for adaptor secret `t` extracts exactly `t`, and so
/// derives the label material of `t`.
pub proof fn lemma_opening_extracts_its_secret(
    o: AdaptorOpening,
    instance_id: u32,
    claim_bytes: Seq<u8>,
    signer: [u8; 32],
    t: [u8; 32],
)
    requires
        is_secret_scalar(signer),
        is_secret_scalar(t),
        adaptor_opening_for(o, instance_id, claim_bytes, signer, t),
    ensures
        complete_outcome(adapted_of(o)) == Ok::<[u8; 32], AdaptorError>(t),
        adaptor_label_outcome(o) == Ok::<[u8; 32], AdaptorError>(adaptor_labels_of(t)),
        o.version == AdaptorOpening::VERSION_PHASE_B,
        o.instance_id == instance_id,
        o.public_inputs_hash == sha256_of(claim_bytes),
{
    let pih = sha256_of(claim_bytes);
    let a = choose|a: AdaptedSignature|
        adapted_signature_ok(a, signer, claim_message_of(pih), t) && o == opening_from_adapted(
            instance_id,
            pih,
            a,
        );
    assert(adapted_of(o) == a);
    lemma_extract_recovers_adaptor_secret(a, signer, claim_message_of(pih), t);
}

} // verus!
