//! SHA-256 as used throughout the library, and byte-level helpers.

use sha2::Digest;
use vstd::prelude::*;

verus! {

/// The SHA-256 digest of a byte string.
pub uninterp spec fn sha256_of(data: Seq<u8>) -> [u8; 32];

/// Calls `sha2::Sha256::digest` on `data`. The contract claims only that the
/// digest is the SHA-256 of exactly these bytes (a function of them alone).
#[verifier::external_body]
pub(crate) fn sha256(data: &[u8]) -> (digest: [u8; 32])
    ensures
        digest == sha256_of(data@),
{
    sha2::Sha256::digest(data).into()
}

/// Appends `data` to `out`.
pub fn append_bytes(out: &mut Vec<u8>, data: &[u8])
    ensures
        final(out)@ == old(out)@ + data@,
{
    out.extend_from_slice(data);
    proof {
        assert(final(out)@ =~= old(out)@ + data@);
    }
}

/// Byte-wise equality of two 32-byte arrays.
pub fn eq32(a: &[u8; 32], b: &[u8; 32]) -> (r: bool)
    ensures
        r == (*a == *b),
{
    let mut i: usize = 0;
    while i < 32
        invariant
            0 <= i <= 32,
            forall|j: int| 0 <= j < i ==> a[j] == b[j],
        decreases 32 - i,
    {
        if a[i] != b[i] {
            return false;
        }
        i = i + 1;
    }
    proof {
        broadcast use vstd::array::group_array_axioms;
        assert(*a =~= *b);
    }
    true
}

// Domain-separation tags hashed in front of the data they bind.

/// The ASCII bytes of `L*_simulation`.
pub const TAG_L_STAR_SIMULATION: [u8; 13] = [0x4c, 0x2a, 0x5f, 0x73, 0x69, 0x6d, 0x75, 0x6c, 0x61, 0x74, 0x69, 0x6f, 0x6e];

/// The ASCII bytes of `CubePhaseASeed`.
pub const TAG_PHASE_A_SEED: [u8; 14] = [0x43, 0x75, 0x62, 0x65, 0x50, 0x68, 0x61, 0x73, 0x65, 0x41, 0x53, 0x65, 0x65, 0x64];

/// The ASCII bytes of `CubePhaseALabels`.
pub const TAG_PHASE_A_LABELS: [u8; 16] = [0x43, 0x75, 0x62, 0x65, 0x50, 0x68, 0x61, 0x73, 0x65, 0x41, 0x4c, 0x61, 0x62, 0x65, 0x6c, 0x73];

/// The ASCII bytes of `GSV/L_invalid/v1`.
pub const TAG_GSV_L_INVALID: [u8; 16] = [0x47, 0x53, 0x56, 0x2f, 0x4c, 0x5f, 0x69, 0x6e, 0x76, 0x61, 0x6c, 0x69, 0x64, 0x2f, 0x76, 0x31];

/// The ASCII bytes of `Beacon/PhaseB/Assert/v1`.
pub const TAG_PHASE_B_MESSAGE: [u8; 23] = [0x42, 0x65, 0x61, 0x63, 0x6f, 0x6e, 0x2f, 0x50, 0x68, 0x61, 0x73, 0x65, 0x42, 0x2f, 0x41, 0x73, 0x73, 0x65, 0x72, 0x74, 0x2f, 0x76, 0x31];

/// The ASCII bytes of `CubePhaseBLabels`.
pub const TAG_PHASE_B_LABELS: [u8; 16] = [0x43, 0x75, 0x62, 0x65, 0x50, 0x68, 0x61, 0x73, 0x65, 0x42, 0x4c, 0x61, 0x62, 0x65, 0x6c, 0x73];

/// The ASCII bytes of `Beacon/PhaseC/L*/v1`.
pub const TAG_PHASE_C_L_STAR: [u8; 19] = [0x42, 0x65, 0x61, 0x63, 0x6f, 0x6e, 0x2f, 0x50, 0x68, 0x61, 0x73, 0x65, 0x43, 0x2f, 0x4c, 0x2a, 0x2f, 0x76, 0x31];

/// The ASCII bytes of `Beacon/PhaseC/GarbleSeed/v1`.
pub const TAG_PHASE_C_GARBLE_SEED: [u8; 27] = [0x42, 0x65, 0x61, 0x63, 0x6f, 0x6e, 0x2f, 0x50, 0x68, 0x61, 0x73, 0x65, 0x43, 0x2f, 0x47, 0x61, 0x72, 0x62, 0x6c, 0x65, 0x53, 0x65, 0x65, 0x64, 0x2f, 0x76, 0x31];

/// The ASCII bytes of `Beacon/PhaseC/Share0`.
pub const TAG_PHASE_C_SHARE0: [u8; 20] = [0x42, 0x65, 0x61, 0x63, 0x6f, 0x6e, 0x2f, 0x50, 0x68, 0x61, 0x73, 0x65, 0x43, 0x2f, 0x53, 0x68, 0x61, 0x72, 0x65, 0x30];

/// The ASCII bytes of `Beacon/PhaseC/Share1`.
pub const TAG_PHASE_C_SHARE1: [u8; 20] = [0x42, 0x65, 0x61, 0x63, 0x6f, 0x6e, 0x2f, 0x50, 0x68, 0x61, 0x73, 0x65, 0x43, 0x2f, 0x53, 0x68, 0x61, 0x72, 0x65, 0x31];

/// The ASCII bytes of `Beacon/PhaseC/VsssSeedStandIn/v1`.
pub const TAG_PHASE_C_VSSS_STAND_IN: [u8; 32] = [0x42, 0x65, 0x61, 0x63, 0x6f, 0x6e, 0x2f, 0x50, 0x68, 0x61, 0x73, 0x65, 0x43, 0x2f, 0x56, 0x73, 0x73, 0x73, 0x53, 0x65, 0x65, 0x64, 0x53, 0x74, 0x61, 0x6e, 0x64, 0x49, 0x6e, 0x2f, 0x76, 0x31];

/// The ASCII bytes of `Beacon/PhaseC/StandIn/L*/v1`.
pub const TAG_PHASE_C_STAND_IN_L_STAR: [u8; 27] = [0x42, 0x65, 0x61, 0x63, 0x6f, 0x6e, 0x2f, 0x50, 0x68, 0x61, 0x73, 0x65, 0x43, 0x2f, 0x53, 0x74, 0x61, 0x6e, 0x64, 0x49, 0x6e, 0x2f, 0x4c, 0x2a, 0x2f, 0x76, 0x31];

/// The ASCII bytes of `Beacon/GsvAdaptor/Assert/v1`.
pub const TAG_GSV_ADAPTOR_MESSAGE: [u8; 27] = [0x42, 0x65, 0x61, 0x63, 0x6f, 0x6e, 0x2f, 0x47, 0x73, 0x76, 0x41, 0x64, 0x61, 0x70, 0x74, 0x6f, 0x72, 0x2f, 0x41, 0x73, 0x73, 0x65, 0x72, 0x74, 0x2f, 0x76, 0x31];

/// The ASCII bytes of `Beacon/GsvAdaptor/LabelMaterial/v1`.
pub const TAG_GSV_ADAPTOR_LABELS: [u8; 34] = [0x42, 0x65, 0x61, 0x63, 0x6f, 0x6e, 0x2f, 0x47, 0x73, 0x76, 0x41, 0x64, 0x61, 0x70, 0x74, 0x6f, 0x72, 0x2f, 0x4c, 0x61, 0x62, 0x65, 0x6c, 0x4d, 0x61, 0x74, 0x65, 0x72, 0x69, 0x61, 0x6c, 0x2f, 0x76, 0x31];

/// The ASCII bytes of `BIP0340/challenge` (the BIP340 challenge tag).
pub const TAG_BIP340_CHALLENGE: [u8; 17] = [0x42, 0x49, 0x50, 0x30, 0x33, 0x34, 0x30, 0x2f, 0x63, 0x68, 0x61, 0x6c, 0x6c, 0x65, 0x6e, 0x67, 0x65];

} // verus!
