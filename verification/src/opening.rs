//! Extractable Assert openings (Phase A direct seed, Phase B adaptor).

use crate::phase_a::opening::{direct_label_material_of, DirectSeedOpening};
use crate::phase_b::opening::{adaptor_label_outcome, AdaptorOpening};
use vstd::prelude::*;

verus! {

/// Common interface for recovering label material from an Assert opening.
pub trait LabelOpening {
    /// The opening's protocol version.
    spec fn opening_version(&self) -> u8;

    /// The evaluation instance the opening belongs to.
    spec fn opening_instance(&self) -> u32;

    /// The public-inputs hash the opening binds.
    spec fn opening_inputs_hash(&self) -> [u8; 32];

    /// Whether label material can be recovered from the opening.
    spec fn labels_recoverable(&self) -> bool;

    /// The label material recovered from the opening.
    spec fn label_material(&self) -> [u8; 32];

    fn version(&self) -> (v: u8)
        ensures
            v == self.opening_version(),
    ;

    fn instance_id(&self) -> (i: u32)
        ensures
            i == self.opening_instance(),
    ;

    fn public_inputs_hash(&self) -> (h: [u8; 32])
        ensures
            h == self.opening_inputs_hash(),
    ;

    /// Deterministic stand-in for wide-label material of the opened instance.
    fn derive_label_material(&self) -> (m: [u8; 32])
        requires
            self.labels_recoverable(),
        ensures
            m == self.label_material(),
    ;
}

impl LabelOpening for DirectSeedOpening {
    open spec fn opening_version(&self) -> u8 {
        self.version
    }

    open spec fn opening_instance(&self) -> u32 {
        self.instance_id
    }

    open spec fn opening_inputs_hash(&self) -> [u8; 32] {
        self.public_inputs_hash
    }

    open spec fn labels_recoverable(&self) -> bool {
        true
    }

    open spec fn label_material(&self) -> [u8; 32] {
        direct_label_material_of(self.seed)
    }

    fn version(&self) -> (v: u8) {
        self.version
    }

    fn instance_id(&self) -> (i: u32) {
        self.instance_id
    }

    fn public_inputs_hash(&self) -> (h: [u8; 32]) {
        self.public_inputs_hash
    }

    fn derive_label_material(&self) -> (m: [u8; 32]) {
        DirectSeedOpening::derive_label_material(self)
    }
}

impl LabelOpening for AdaptorOpening {
    open spec fn opening_version(&self) -> u8 {
        self.version
    }

    open spec fn opening_instance(&self) -> u32 {
        self.instance_id
    }

    open spec fn opening_inputs_hash(&self) -> [u8; 32] {
        self.public_inputs_hash
    }

    /// Recoverable when the adaptor secret extracts cleanly; an opening that
    /// does not extract has no label material.
    open spec fn labels_recoverable(&self) -> bool {
        adaptor_label_outcome(*self) is Ok
    }

    open spec fn label_material(&self) -> [u8; 32] {
        adaptor_label_outcome(*self)->Ok_0
    }

    fn version(&self) -> (v: u8) {
        self.version
    }

    fn instance_id(&self) -> (i: u32) {
        self.instance_id
    }

    fn public_inputs_hash(&self) -> (h: [u8; 32]) {
        self.public_inputs_hash
    }

    fn derive_label_material(&self) -> (m: [u8; 32]) {
        match AdaptorOpening::derive_label_material(self) {
            Ok(m) => m,
            Err(_) => [0u8; 32],
        }
    }
}

/// Opening carried alongside an Assert (witness interpretation).
#[derive(Clone, Copy, Debug, PartialEq, Eq)]
pub enum AssertOpening {
    Direct(DirectSeedOpening),
    Adaptor(AdaptorOpening),
}

impl LabelOpening for AssertOpening {
    open spec fn opening_version(&self) -> u8 {
        match self {
            AssertOpening::Direct(o) => o.opening_version(),
            AssertOpening::Adaptor(o) => o.opening_version(),
        }
    }

    open spec fn opening_instance(&self) -> u32 {
        match self {
            AssertOpening::Direct(o) => o.opening_instance(),
            AssertOpening::Adaptor(o) => o.opening_instance(),
        }
    }

    open spec fn opening_inputs_hash(&self) -> [u8; 32] {
        match self {
            AssertOpening::Direct(o) => o.opening_inputs_hash(),
            AssertOpening::Adaptor(o) => o.opening_inputs_hash(),
        }
    }

    open spec fn labels_recoverable(&self) -> bool {
        match self {
            AssertOpening::Direct(o) => o.labels_recoverable(),
            AssertOpening::Adaptor(o) => o.labels_recoverable(),
        }
    }

    open spec fn label_material(&self) -> [u8; 32] {
        match self {
            AssertOpening::Direct(o) => o.label_material(),
            AssertOpening::Adaptor(o) => o.label_material(),
        }
    }

    fn version(&self) -> (v: u8) {
        match self {
            AssertOpening::Direct(o) => o.version,
            AssertOpening::Adaptor(o) => o.version,
        }
    }

    fn instance_id(&self) -> (i: u32) {
        match self {
            AssertOpening::Direct(o) => o.instance_id,
            AssertOpening::Adaptor(o) => o.instance_id,
        }
    }

    fn public_inputs_hash(&self) -> (h: [u8; 32]) {
        match self {
            AssertOpening::Direct(o) => o.public_inputs_hash,
            AssertOpening::Adaptor(o) => o.public_inputs_hash,
        }
    }

    fn derive_label_material(&self) -> (m: [u8; 32]) {
        match self {
            AssertOpening::Direct(o) => LabelOpening::derive_label_material(o),
            AssertOpening::Adaptor(o) => LabelOpening::derive_label_material(o),
        }
    }
}

impl AssertOpening {
    /// The opening behind the enum, as a label-opening trait object.
    ///
    /// A function whose result is a `&dyn` trait object takes no contract
    /// clauses, so which opening is returned is not stated here;
    /// `AssertOpening`'s own `LabelOpening` impl states the same facts per
    /// variant.
    pub fn as_label_opening(&self) -> &dyn LabelOpening {
        match self {
            AssertOpening::Direct(o) => o,
            AssertOpening::Adaptor(o) => o,
        }
    }
}

} // verus!
