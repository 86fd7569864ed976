//! The capability contract of a concrete unit type.

use vstd::prelude::*;
use vstd::std_specs::cmp::PartialEqSpec;

verus! {

/// What any concrete unit type must supply: value equality whose meaning
/// is pinned by a specification, duplication that preserves the value,
/// and a human-readable symbol.
///
/// This capability alone lets a `Measurement` be formatted, negated and
/// compared for equality within the same unit; conversion and combination
/// across units of a family need [`crate::Dimension`] as well.
pub trait Unit: Sized + Clone + PartialEq {
    /// The view of the display symbol.
    spec fn symbol_spec(&self) -> Seq<char>;

    /// Equality of units follows its specification.
    proof fn lemma_eq_spec_obeyed()
        ensures
            Self::obeys_eq_spec(),
    ;

    /// A clone of a unit is the unit itself.
    proof fn lemma_clone_eq(a: &Self, b: Self)
        requires
            vstd::pervasive::cloned::<Self>(*a, b),
        ensures
            b == *a,
    ;

    /// The display symbol of this unit, e.g. `"m"` or `"kWh"`.
    fn symbol(&self) -> (s: String)
        ensures
            s@ == self.symbol_spec(),
    ;
}

} // verus!
