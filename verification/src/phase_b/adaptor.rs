//! Schnorr adaptor offset helpers (BIP340 signature + extractable secret).
//!
//! Construction (Phase B):
//! 1. Sample adaptor secret `t`, publish `T = t·G` (x-only).
//! 2. Produce a valid BIP340 signature `(R, s)` on the claim-binding message.
//! 3. Publish the adapted scalar `s' = s − t`.
//! 4. Anyone who sees `(s', s)` recovers `t = s − s'` and checks `T = t·G`.
//!
//! Secret keys and scalars are carried as their 32-byte big-endian encodings.

use secp256k1::{Keypair, Message, PublicKey, Scalar, SecretKey, XOnlyPublicKey, SECP256K1};
use vstd::prelude::*;
use vstd::string::StringExecFns;

verus! {

/// The big-endian value of a byte string.
pub open spec fn be_value(b: Seq<u8>) -> nat
    decreases b.len(),
{
    if b.len() == 0 {
        0
    } else {
        be_value(b.drop_last()) * 256 + (b.last() as nat)
    }
}

/// The order of the secp256k1 group.
pub open spec fn curve_order() -> nat {
    0xFFFFFFFFFFFFFFFFFFFFFFFFFFFFFFFEBAAEDCE6AF48A03BBFD25E8CD0364141nat
}

/// Whether 32 bytes encode a valid secret key: not zero and below the curve order.
pub open spec fn is_secret_scalar(b: [u8; 32]) -> bool {
    0 < be_value(b@) < curve_order()
}

/// The BIP340 x-only public key of a secret key.
pub uninterp spec fn xonly_pubkey_of(secret: [u8; 32]) -> [u8; 32];

/// Whether 32 bytes parse as a BIP340 x-only public key.
pub uninterp spec fn is_xonly_encoding(bytes: [u8; 32]) -> bool;

/// The BIP340 signature (no auxiliary randomness) of a 32-byte message.
pub uninterp spec fn schnorr_signature_of(message: [u8; 32], secret: [u8; 32]) -> [u8; 64];

/// Whether a BIP340 signature verifies for a message under an x-only key.
pub uninterp spec fn schnorr_verifies(sig: [u8; 64], message: [u8; 32], pubkey: [u8; 32]) -> bool;

/// Calls `SecretKey::from_slice`, which accepts exactly the 32-byte strings that
/// are not zero and below the curve order read most significant byte first.
#[verifier::external_body]
pub(crate) fn secret_key_is_valid(bytes: &[u8; 32]) -> (ok: bool)
    ensures
        ok == is_secret_scalar(*bytes),
{
    SecretKey::from_slice(bytes).is_ok()
}

/// Calls `SecretKey::negate`: the additive inverse modulo the curve order.
#[verifier::external_body]
pub(crate) fn secret_key_negate(key: &[u8; 32]) -> (neg: [u8; 32])
    requires
        is_secret_scalar(*key),
    ensures
        be_value(neg@) == curve_order() - be_value(key@),
{
    SecretKey::from_slice(key).unwrap().negate().secret_bytes()
}

/// Calls `SecretKey::add_tweak` with the scalar of a valid secret key: the sum
/// modulo the curve order, refused exactly when that sum is zero.
#[verifier::external_body]
pub(crate) fn secret_key_add_tweak(key: &[u8; 32], tweak: &[u8; 32]) -> (sum: Option<[u8; 32]>)
    requires
        is_secret_scalar(*key),
        is_secret_scalar(*tweak),
    ensures
        sum is Some <==> (be_value(key@) + be_value(tweak@)) % curve_order() != 0,
        sum matches Some(s) ==> be_value(s@) == (be_value(key@) + be_value(tweak@))
            % curve_order(),
{
    let k = SecretKey::from_slice(key).unwrap();
    let t = SecretKey::from_slice(tweak).unwrap();
    k.add_tweak(&Scalar::from(t)).ok().map(|s| s.secret_bytes())
}

/// Calls `PublicKey::from_secret_key(..).x_only_public_key()` and serializes the
/// x-only key; a serialized x-only key parses again.
#[verifier::external_body]
pub(crate) fn xonly_of_secret(secret: &[u8; 32]) -> (x: [u8; 32])
    requires
        is_secret_scalar(*secret),
    ensures
        x == xonly_pubkey_of(*secret),
        is_xonly_encoding(x),
{
    let sk = SecretKey::from_slice(secret).unwrap();
    PublicKey::from_secret_key(SECP256K1, &sk).x_only_public_key().0.serialize()
}

/// Calls `XOnlyPublicKey::from_slice` and reports whether it succeeds.
#[verifier::external_body]
pub(crate) fn xonly_parses(bytes: &[u8; 32]) -> (ok: bool)
    ensures
        ok == is_xonly_encoding(*bytes),
{
    XOnlyPublicKey::from_slice(bytes).is_ok()
}

/// Calls `sign_schnorr_no_aux_rand` (deterministic BIP340 signing). A signature
/// so produced verifies under the signer's x-only key (BIP340 correctness).
#[verifier::external_body]
pub(crate) fn schnorr_sign(message: &[u8; 32], secret: &[u8; 32]) -> (sig: [u8; 64])
    requires
        is_secret_scalar(*secret),
    ensures
        sig == schnorr_signature_of(*message, *secret),
        schnorr_verifies(sig, *message, xonly_pubkey_of(*secret)),
{
    let kp = Keypair::from_seckey_slice(SECP256K1, secret).unwrap();
    let msg = Message::from_digest(*message);
    let sig = SECP256K1.sign_schnorr_no_aux_rand(&msg, &kp);
    let mut out = [0u8; 64];
    out.copy_from_slice(sig.as_ref());
    out
}

/// Calls `verify_schnorr` on a 64-byte signature, a message and a parsable x-only key.
#[verifier::external_body]
pub(crate) fn schnorr_verify(sig: &[u8; 64], message: &[u8; 32], pubkey: &[u8; 32]) -> (ok: bool)
    requires
        is_xonly_encoding(*pubkey),
    ensures
        ok == schnorr_verifies(*sig, *message, *pubkey),
{
    let pk = XOnlyPublicKey::from_slice(pubkey).unwrap();
    let s = secp256k1::schnorr::Signature::from_slice(sig).unwrap();
    SECP256K1.verify_schnorr(&s, &Message::from_digest(*message), &pk).is_ok()
}

/// Calls `SecretKey::new` with the thread RNG: some valid secret key.
#[verifier::external_body]
pub(crate) fn random_secret_key() -> (k: [u8; 32])
    ensures
        is_secret_scalar(k),
{
    SecretKey::new(&mut rand::thread_rng()).secret_bytes()
}

/// Error from adaptor create / extract / verify.
#[derive(Debug, Clone, Copy, PartialEq, Eq)]
pub enum AdaptorError {
    BadSecret,
    BadPoint,
    ExtractMismatch,
    InvalidSignature,
}

/// The message of an adaptor error.
pub open spec fn adaptor_error_text(e: AdaptorError) -> Seq<char> {
    match e {
        AdaptorError::BadSecret => "invalid secret scalar"@,
        AdaptorError::BadPoint => "invalid public point"@,
        AdaptorError::ExtractMismatch => "extracted secret does not match adaptor point"@,
        AdaptorError::InvalidSignature => "completed BIP340 signature failed verification"@,
    }
}

impl AdaptorError {
    /// The error's message.
    pub fn to_string(&self) -> (s: String)
        ensures
            s@ == adaptor_error_text(*self),
    {
        match self {
            AdaptorError::BadSecret => String::from_str("invalid secret scalar"),
            AdaptorError::BadPoint => String::from_str("invalid public point"),
            AdaptorError::ExtractMismatch => String::from_str(
                "extracted secret does not match adaptor point",
            ),
            AdaptorError::InvalidSignature => String::from_str(
                "completed BIP340 signature failed verification",
            ),
        }
    }
}

/// Adapted signature material before / after Assert completion.
#[derive(Clone, Copy, Debug)]
pub struct AdaptedSignature {
    pub signer_xonly: [u8; 32],
    pub adaptor_point: [u8; 32],
    pub nonce_x: [u8; 32],
    pub adapted_s: [u8; 32],
    pub completed_s: [u8; 32],
    pub message: [u8; 32],
}

/// The first half (`R.x`) of a 64-byte signature.
pub open spec fn sig_nonce(sig: [u8; 64]) -> Seq<u8> {
    sig@.subrange(0, 32)
}

/// The second half (`s`) of a 64-byte signature.
pub open spec fn sig_scalar(sig: [u8; 64]) -> Seq<u8> {
    sig@.subrange(32, 64)
}

/// `(a - b) mod n` for scalars below the curve order.
pub open spec fn scalar_sub(a: nat, b: nat) -> nat {
    ((a + (curve_order() - b)) % (curve_order() as int)) as nat
}

/// What `create_adapted_signature` returns for valid signer and adaptor secrets.
pub open spec fn adapted_signature_ok(
    a: AdaptedSignature,
    signer: [u8; 32],
    message: [u8; 32],
    adaptor_secret: [u8; 32],
) -> bool {
    let sig = schnorr_signature_of(message, signer);
    &&& !adapted_signature_fails(signer, message, adaptor_secret)
    &&& a.signer_xonly == xonly_pubkey_of(signer)
    &&& a.adaptor_point == xonly_pubkey_of(adaptor_secret)
    &&& a.nonce_x@ == sig_nonce(sig)
    &&& a.completed_s@ == sig_scalar(sig)
    &&& be_value(a.adapted_s@) == scalar_sub(be_value(sig_scalar(sig)), be_value(adaptor_secret@))
    &&& a.message == message
    &&& is_xonly_encoding(a.signer_xonly)
    &&& is_xonly_encoding(a.adaptor_point)
    &&& schnorr_verifies(sig, message, a.signer_xonly)
}

/// When `create_adapted_signature` fails: the completed scalar is not a valid
/// secret key, or it equals the adaptor secret (so `s − t` would be zero).
pub open spec fn adapted_signature_fails(signer: [u8; 32], message: [u8; 32], adaptor_secret: [u8; 32]) -> bool {
    let s = sig_scalar(schnorr_signature_of(message, signer));
    !(0 < be_value(s) < curve_order()) || scalar_sub(be_value(s), be_value(adaptor_secret@)) == 0
}

fn copy32(src: &[u8; 64], start: usize) -> (out: [u8; 32])
    requires
        start == 0 || start == 32,
    ensures
        out@ == src@.subrange(start as int, start + 32),
{
    let mut out = [0u8; 32];
    let mut i: usize = 0;
    while i < 32
        invariant
            0 <= i <= 32,
            start == 0 || start == 32,
            forall|j: int| 0 <= j < i ==> out@[j] == src@[start + j],
        decreases 32 - i,
    {
        out[i] = src[start + i];
        i = i + 1;
    }
    proof {
        assert(out@ =~= src@.subrange(start as int, start + 32));
    }
    out
}

proof fn lemma_be_zero_iff(b: Seq<u8>)
    ensures
        be_value(b) == 0 <==> forall|i: int| 0 <= i < b.len() ==> b[i] == 0,
    decreases b.len(),
{
    if b.len() > 0 {
        lemma_be_zero_iff(b.drop_last());
        if be_value(b) == 0 {
            assert forall|i: int| 0 <= i < b.len() implies b[i] == 0 by {
                if i < b.len() - 1 {
                    assert(b.drop_last()[i] == b[i]);
                }
            }
        }
        if forall|i: int| 0 <= i < b.len() ==> b[i] == 0 {
            assert forall|i: int| 0 <= i < b.drop_last().len() implies b.drop_last()[i] == 0 by {
                assert(b.drop_last()[i] == b[i]);
            }
        }
    }
}

/// Two byte strings of the same length with the same big-endian value are equal.
pub proof fn lemma_be_value_injective(a: Seq<u8>, b: Seq<u8>)
    requires
        a.len() == b.len(),
        be_value(a) == be_value(b),
    ensures
        a == b,
    decreases a.len(),
{
    if a.len() > 0 {
        let pa = be_value(a.drop_last());
        let pb = be_value(b.drop_last());
        let la = a.last() as int;
        let lb = b.last() as int;
        assert(pa * 256 + la == pb * 256 + lb);
        assert(la == lb && pa == pb) by (nonlinear_arith)
            requires
                pa * 256 + la == pb * 256 + lb,
                0 <= la < 256,
                0 <= lb < 256,
                pa >= 0,
                pb >= 0,
        ;
        lemma_be_value_injective(a.drop_last(), b.drop_last());
        assert(a =~= a.drop_last().push(a.last()));
        assert(b =~= b.drop_last().push(b.last()));
    }
}

/// Subtracting an `s − t` offset from `s` recovers `t`: `s − (s − t) = t` for
/// scalars in `(0, n)` when `s ≠ t`.
pub proof fn lemma_scalar_sub_recovers(s: nat, t: nat)
    requires
        0 < s < curve_order(),
        0 < t < curve_order(),
        scalar_sub(s, t) != 0,
    ensures
        scalar_sub(s, scalar_sub(s, t)) == t,
{
    let n = curve_order() as int;
    let si = s as int;
    let ti = t as int;
    if si >= ti {
        vstd::arithmetic::div_mod::lemma_fundamental_div_mod_converse(si + (n - ti), n, 1, si - ti);
        let a = si - ti;
        assert(scalar_sub(s, t) as int == a);
        vstd::arithmetic::div_mod::lemma_fundamental_div_mod_converse(si + (n - a), n, 1, ti);
    } else {
        vstd::arithmetic::div_mod::lemma_fundamental_div_mod_converse(si + (n - ti), n, 0, si + n - ti);
        let a = si + n - ti;
        assert(scalar_sub(s, t) as int == a);
        vstd::arithmetic::div_mod::lemma_fundamental_div_mod_converse(si + (n - a), n, 0, ti);
    }
}

/// Create a BIP340 signature on `message` under `signer` and the adaptor offset
/// `s' = s − t` for the adaptor secret `t`.
pub fn create_adapted_signature(
    signer: &[u8; 32],
    message: &[u8; 32],
    adaptor_secret: &[u8; 32],
) -> (r: Result<AdaptedSignature, AdaptorError>)
    requires
        is_secret_scalar(*signer),
        is_secret_scalar(*adaptor_secret),
    ensures
        r is Err <==> adapted_signature_fails(*signer, *message, *adaptor_secret),
        r matches Err(e) ==> e == AdaptorError::BadSecret,
        r matches Ok(a) ==> adapted_signature_ok(a, *signer, *message, *adaptor_secret),
{
    let signer_xonly = xonly_of_secret(signer);
    let adaptor_point = xonly_of_secret(adaptor_secret);
    let sig = schnorr_sign(message, signer);
    let nonce_x = copy32(&sig, 0);
    let completed_s = copy32(&sig, 32);
    if !secret_key_is_valid(&completed_s) {
        return Err(AdaptorError::BadSecret);
    }
    let neg_t = secret_key_negate(adaptor_secret);
    proof {
        assert(0 < be_value(neg_t@) < curve_order());
    }
    match secret_key_add_tweak(&completed_s, &neg_t) {
        None => Err(AdaptorError::BadSecret),
        Some(adapted_s) => Ok(
            AdaptedSignature {
                signer_xonly,
                adaptor_point,
                nonce_x,
                adapted_s,
                completed_s,
                message: *message,
            },
        ),
    }
}

/// The outcome of extracting `t = s − s'` from encoded scalars.
pub open spec fn extract_outcome(adapted_s: [u8; 32], completed_s: [u8; 32], t: [u8; 32]) -> bool {
    &&& is_secret_scalar(completed_s)
    &&& is_secret_scalar(adapted_s)
    &&& be_value(t@) == scalar_sub(be_value(completed_s@), be_value(adapted_s@))
}

/// When extraction fails: either scalar is invalid, or they are equal.
pub open spec fn extract_fails(adapted_s: [u8; 32], completed_s: [u8; 32]) -> bool {
    !is_secret_scalar(completed_s) || !is_secret_scalar(adapted_s) || scalar_sub(
        be_value(completed_s@),
        be_value(adapted_s@),
    ) == 0
}

/// Recover `t = s − s'` from adapted + completed scalars.
pub fn extract_adaptor_secret(adapted_s: &[u8; 32], completed_s: &[u8; 32]) -> (r: Result<
    [u8; 32],
    AdaptorError,
>)
    ensures
        r is Err <==> extract_fails(*adapted_s, *completed_s),
        r matches Err(e) ==> e == AdaptorError::BadSecret,
        r matches Ok(t) ==> extract_outcome(*adapted_s, *completed_s, t),
{
    if !secret_key_is_valid(completed_s) {
        return Err(AdaptorError::BadSecret);
    }
    if !secret_key_is_valid(adapted_s) {
        return Err(AdaptorError::BadSecret);
    }
    let neg = secret_key_negate(adapted_s);
    match secret_key_add_tweak(completed_s, &neg) {
        None => Err(AdaptorError::BadSecret),
        Some(t) => Ok(t),
    }
}

/// The full outcome of `complete_and_extract` on adapted signature material.
pub open spec fn complete_outcome(a: AdaptedSignature) -> Result<[u8; 32], AdaptorError> {
    if extract_fails(a.adapted_s, a.completed_s) {
        Err(AdaptorError::BadSecret)
    } else {
        // the extracted secret is determined by its value
        let t = choose|t: [u8; 32]| extract_outcome(a.adapted_s, a.completed_s, t);
        if !is_xonly_encoding(a.adaptor_point) {
            Err(AdaptorError::BadPoint)
        } else if xonly_pubkey_of(t) != a.adaptor_point {
            Err(AdaptorError::ExtractMismatch)
        } else if !is_xonly_encoding(a.signer_xonly) {
            Err(AdaptorError::BadPoint)
        } else if !schnorr_verifies(
            signature_bytes(a.nonce_x, a.completed_s),
            a.message,
            a.signer_xonly,
        ) {
            Err(AdaptorError::InvalidSignature)
        } else {
            Ok(t)
        }
    }
}

/// The 64-byte signature `R.x || s`.
pub open spec fn signature_bytes(nonce_x: [u8; 32], s: [u8; 32]) -> [u8; 64] {
    choose|sig: [u8; 64]| sig@ == nonce_x@ + s@
}

fn join64(a: &[u8; 32], b: &[u8; 32]) -> (out: [u8; 64])
    ensures
        out@ == a@ + b@,
        out == signature_bytes(*a, *b),
{
    let mut out = [0u8; 64];
    let mut i: usize = 0;
    while i < 64
        invariant
            0 <= i <= 64,
            forall|j: int| 0 <= j < i ==> out@[j] == (a@ + b@)[j],
        decreases 64 - i,
    {
        if i < 32 {
            out[i] = a[i];
        } else {
            out[i] = b[i - 32];
        }
        i = i + 1;
    }
    proof {
        assert(out@ =~= a@ + b@);
        let c = signature_bytes(*a, *b);
        assert(c@ == a@ + b@);
        broadcast use vstd::array::group_array_axioms;
        assert forall|j: int| 0 <= j < 64 implies out[j] == c[j] by {
            assert(out@[j] == c@[j]);
        }
        assert(out =~= c);
    }
    out
}

/// Extract `t` and check it matches the committed adaptor point `T`, then check
/// that the completed signature verifies under the Engine key.
///
/// The adaptor point is compared by its 32-byte serialization, which is how
/// x-only keys compare.
pub fn complete_and_extract(adapted: &AdaptedSignature) -> (r: Result<[u8; 32], AdaptorError>)
    ensures
        r == complete_outcome(*adapted),
{
    let t = match extract_adaptor_secret(&adapted.adapted_s, &adapted.completed_s) {
        Ok(t) => t,
        Err(e) => return Err(e),
    };
    proof {
        let c = choose|c: [u8; 32]| extract_outcome(adapted.adapted_s, adapted.completed_s, c);
        assert(extract_outcome(adapted.adapted_s, adapted.completed_s, t));
        lemma_be_value_injective(c@, t@);
        broadcast use vstd::array::group_array_axioms;
        assert(c =~= t);
    }
    if !xonly_parses(&adapted.adaptor_point) {
        return Err(AdaptorError::BadPoint);
    }
    let got = xonly_of_secret(&t);
    if !crate::hashing::eq32(&got, &adapted.adaptor_point) {
        return Err(AdaptorError::ExtractMismatch);
    }
    if !xonly_parses(&adapted.signer_xonly) {
        return Err(AdaptorError::BadPoint);
    }
    let sig = join64(&adapted.nonce_x, &adapted.completed_s);
    if !schnorr_verify(&sig, &adapted.message, &adapted.signer_xonly) {
        return Err(AdaptorError::InvalidSignature);
    }
    Ok(t)
}

/// Whoever sees an adapted signature created for adaptor secret `t` recovers
/// exactly `t`: both from the scalars alone and through the full check of the
/// adaptor point and the completed signature.
pub proof fn lemma_extract_recovers_adaptor_secret(
    a: AdaptedSignature,
    signer: [u8; 32],
    message: [u8; 32],
    adaptor_secret: [u8; 32],
)
    requires
        is_secret_scalar(signer),
        is_secret_scalar(adaptor_secret),
        adapted_signature_ok(a, signer, message, adaptor_secret),
    ensures
        !extract_fails(a.adapted_s, a.completed_s),
        extract_outcome(a.adapted_s, a.completed_s, adaptor_secret),
        complete_outcome(a) == Ok::<[u8; 32], AdaptorError>(adaptor_secret),
{
    let s = be_value(a.completed_s@);
    let t = be_value(adaptor_secret@);
    let sp = be_value(a.adapted_s@);
    lemma_scalar_sub_recovers(s, t);
    assert(scalar_sub(s, sp) == t);
    assert(!extract_fails(a.adapted_s, a.completed_s));
    let c = choose|c: [u8; 32]| extract_outcome(a.adapted_s, a.completed_s, c);
    assert(extract_outcome(a.adapted_s, a.completed_s, adaptor_secret));
    lemma_be_value_injective(c@, adaptor_secret@);
    broadcast use vstd::array::group_array_axioms;
    assert(c =~= adaptor_secret);
    let sig = schnorr_signature_of(message, signer);
    let joined = signature_bytes(a.nonce_x, a.completed_s);
    assert(joined@ =~= sig@) by {
        assert(sig@ =~= sig_nonce(sig) + sig_scalar(sig));
    }
    assert(joined =~= sig) by {
        assert forall|j: int| 0 <= j < 64 implies joined[j] == sig[j] by {
            assert(joined@[j] == sig@[j]);
        }
    }
}


/// What an accepted completion guarantees: the completed signature
/// `nonce_x || completed_s` verifies (BIP340) for the message under the
/// signer's key, the extracted secret's key is the adaptor point, and the
/// extracted secret is what the adapted scalar lacks:
/// `s' + t ≡ s (mod n)`.
pub proof fn lemma_completion_checks_signature(a: AdaptedSignature)
    requires
        complete_outcome(a) is Ok,
    ensures
        forall|sig: [u8; 64]|
            sig@ == a.nonce_x@ + a.completed_s@ ==> #[trigger] schnorr_verifies(
                sig,
                a.message,
                a.signer_xonly,
            ),
        xonly_pubkey_of(complete_outcome(a)->Ok_0) == a.adaptor_point,
        is_secret_scalar(a.completed_s),
        is_secret_scalar(a.adapted_s),
        (be_value(a.adapted_s@) + be_value(complete_outcome(a)->Ok_0@)) % curve_order() == be_value(
            a.completed_s@,
        ),
{
    let t = complete_outcome(a)->Ok_0;
    crate::phase_b::gsv_adaptor::lemma_scalar_has_be32(
        scalar_sub(be_value(a.completed_s@), be_value(a.adapted_s@)),
    );
    assert(!extract_fails(a.adapted_s, a.completed_s));
    let w = choose|w: [u8; 32]| #[trigger] be_value(w@) == scalar_sub(
        be_value(a.completed_s@),
        be_value(a.adapted_s@),
    );
    assert(extract_outcome(a.adapted_s, a.completed_s, w));
    assert(extract_outcome(a.adapted_s, a.completed_s, t));
    assert forall|sig: [u8; 64]|
        sig@ == a.nonce_x@ + a.completed_s@ implies #[trigger] schnorr_verifies(
        sig,
        a.message,
        a.signer_xonly,
    ) by {
        let j = signature_bytes(a.nonce_x, a.completed_s);
        assert(j@ == a.nonce_x@ + a.completed_s@);
        broadcast use vstd::array::group_array_axioms;
        assert forall|i: int| 0 <= i < 64 implies j[i] == sig[i] by {
            assert(j@[i] == sig@[i]);
        }
        assert(j =~= sig);
    }
    let n = curve_order() as int;
    let s = be_value(a.completed_s@) as int;
    let sp = be_value(a.adapted_s@) as int;
    let tv = be_value(t@) as int;
    assert(tv == (s + (n - sp)) % n);
    if s >= sp {
        vstd::arithmetic::div_mod::lemma_fundamental_div_mod_converse(s + (n - sp), n, 1, s - sp);
        vstd::arithmetic::div_mod::lemma_fundamental_div_mod_converse(sp + tv, n, 0, s);
    } else {
        vstd::arithmetic::div_mod::lemma_fundamental_div_mod_converse(s + (n - sp), n, 0, s + n - sp);
        vstd::arithmetic::div_mod::lemma_fundamental_div_mod_converse(sp + tv, n, 1, s);
    }
}

} // verus!
