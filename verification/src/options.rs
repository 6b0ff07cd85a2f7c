//! The waiver lattice: which of the three guarantees — stability,
//! alignment, validity — a conversion is permitted to skip.
//!
//! Waiver sets are closed: the only tokens are the three `Neglect` markers
//! below and their tuple combinations, all reduced to a [`Waivers`] set.
//! The safe option family is a strict sub-lattice of the unsafe one: only
//! stability may ever be waived without an unsafe acknowledgement.

use vstd::prelude::*;

verus! {

/// A set of waived guarantees, threaded through every query.
///
/// The empty set is the default: nothing is waived, every guarantee is
/// checked. Waiving more never invalidates a conversion that already held.
#[derive(Clone, Copy, PartialEq, Eq, Structural, Debug)]
pub struct Waivers {
    /// The layouts' stability across future compatible revisions is not
    /// required.
    pub stability: bool,
    /// The destination's alignment requirement is not checked; the caller
    /// attests to the actual run-time alignment.
    pub alignment: bool,
    /// The destination's bit-validity is not checked; the caller attests
    /// that the actual bits are a legal destination instance.
    pub validity: bool,
}

impl Waivers {
    /// The empty waiver set: every guarantee is checked.
    pub open spec fn none() -> Waivers {
        Waivers { stability: false, alignment: false, validity: false }
    }

    /// The set waiving only stability.
    pub open spec fn stability_only() -> Waivers {
        Waivers { stability: true, alignment: false, validity: false }
    }

    /// Containment of waiver sets: everything `self` waives, `other`
    /// waives too.
    pub open spec fn le(self, other: Waivers) -> bool {
        &&& (self.stability ==> other.stability)
        &&& (self.alignment ==> other.alignment)
        &&& (self.validity ==> other.validity)
    }

    /// `self` with stability additionally waived.
    pub open spec fn with_stability(self) -> Waivers {
        Waivers { stability: true, alignment: self.alignment, validity: self.validity }
    }

    /// `self` with the alignment waiver stripped: alignment is checked.
    pub open spec fn without_alignment(self) -> Waivers {
        Waivers { stability: self.stability, alignment: false, validity: self.validity }
    }

    /// A safe waiver set is a subset of `{stability}`: alignment and
    /// validity are reachable only through the unsafe operation family.
    pub open spec fn is_safe(self) -> bool {
        !self.alignment && !self.validity
    }

    /// The empty waiver set, as a value.
    pub fn empty() -> (w: Waivers)
        ensures
            w == Waivers::none(),
    {
        Waivers { stability: false, alignment: false, validity: false }
    }
}

/// The closed foundation of the option hierarchy: only this crate's waiver
/// tokens take part in it.
pub trait Sealed {
}

/// Options that may be used with unsafe transmutations: any combination of
/// the three waiver tokens.
pub trait UnsafeTransmuteOptions: Sealed {
    /// The waiver set this option value denotes.
    spec fn waivers(&self) -> Waivers;

    /// The waiver set this option value denotes, as a value.
    fn waiver_set(&self) -> (w: Waivers)
        ensures
            w == self.waivers(),
    ;
}

/// Options that may be used with safe transmutations: subsets of
/// `{stability}` only.
pub trait SafeTransmuteOptions: UnsafeTransmuteOptions {
    /// A safe option never waives alignment or validity.
    proof fn waivers_are_safe(&self)
        ensures
            self.waivers().is_safe(),
    ;
}

/// Neglect the static stability check.
///
/// Neglecting stability cannot cause unsoundness or unsafety, so this is
/// the one option available to the safe operation family; the conversion
/// may merely stop being provable under a future revision of either type.
pub struct NeglectStability;

/// Neglect the static alignment check on reference conversions. Unsafe:
/// the caller attests that the actual address is aligned enough.
pub struct NeglectAlignment;

/// Neglect the static validity check. Unsafe: the caller attests that the
/// actual bits are a legal instance of the destination type.
pub struct NeglectValidity;

impl Sealed for () {
}

impl UnsafeTransmuteOptions for () {
    open spec fn waivers(&self) -> Waivers {
        Waivers::none()
    }

    fn waiver_set(&self) -> (w: Waivers) {
        Waivers::empty()
    }
}

impl SafeTransmuteOptions for () {
    proof fn waivers_are_safe(&self) {
    }
}

impl Sealed for NeglectStability {
}

impl UnsafeTransmuteOptions for NeglectStability {
    open spec fn waivers(&self) -> Waivers {
        Waivers::stability_only()
    }

    fn waiver_set(&self) -> (w: Waivers) {
        Waivers { stability: true, alignment: false, validity: false }
    }
}

impl SafeTransmuteOptions for NeglectStability {
    proof fn waivers_are_safe(&self) {
    }
}

impl Sealed for NeglectAlignment {
}

impl UnsafeTransmuteOptions for NeglectAlignment {
    open spec fn waivers(&self) -> Waivers {
        Waivers { stability: false, alignment: true, validity: false }
    }

    fn waiver_set(&self) -> (w: Waivers) {
        Waivers { stability: false, alignment: true, validity: false }
    }
}

impl Sealed for NeglectValidity {
}

impl UnsafeTransmuteOptions for NeglectValidity {
    open spec fn waivers(&self) -> Waivers {
        Waivers { stability: false, alignment: false, validity: true }
    }

    fn waiver_set(&self) -> (w: Waivers) {
        Waivers { stability: false, alignment: false, validity: true }
    }
}

impl Sealed for (NeglectStability, NeglectAlignment) {
}

impl UnsafeTransmuteOptions for (NeglectStability, NeglectAlignment) {
    open spec fn waivers(&self) -> Waivers {
        Waivers { stability: true, alignment: true, validity: false }
    }

    fn waiver_set(&self) -> (w: Waivers) {
        Waivers { stability: true, alignment: true, validity: false }
    }
}

impl Sealed for (NeglectStability, NeglectValidity) {
}

impl UnsafeTransmuteOptions for (NeglectStability, NeglectValidity) {
    open spec fn waivers(&self) -> Waivers {
        Waivers { stability: true, alignment: false, validity: true }
    }

    fn waiver_set(&self) -> (w: Waivers) {
        Waivers { stability: true, alignment: false, validity: true }
    }
}

impl Sealed for (NeglectAlignment, NeglectValidity) {
}

impl UnsafeTransmuteOptions for (NeglectAlignment, NeglectValidity) {
    open spec fn waivers(&self) -> Waivers {
        Waivers { stability: false, alignment: true, validity: true }
    }

    fn waiver_set(&self) -> (w: Waivers) {
        Waivers { stability: false, alignment: true, validity: true }
    }
}

impl Sealed for (NeglectStability, NeglectAlignment, NeglectValidity) {
}

impl UnsafeTransmuteOptions for (NeglectStability, NeglectAlignment, NeglectValidity) {
    open spec fn waivers(&self) -> Waivers {
        Waivers { stability: true, alignment: true, validity: true }
    }

    fn waiver_set(&self) -> (w: Waivers) {
        Waivers { stability: true, alignment: true, validity: true }
    }
}

} // verus!
