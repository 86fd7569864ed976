//! The capability contract of a unit family.

use crate::unit::Unit;
use crate::unit_converter::UnitConverter;
use vstd::prelude::*;

verus! {

/// Extends [`Unit`] with the family's canonical base unit and, for each
/// unit, the rule converting it to that base unit.  Membership in a
/// family is structural: every unit of the implementing type converts
/// through the one base unit the type names.
pub trait Dimension: Unit {
    /// The canonical base unit of the family.
    spec fn base_unit_spec() -> Self;

    /// The conversion rule from this unit to the family's base unit.
    spec fn converter_spec(&self) -> UnitConverter;

    /// The base unit converts by the identity rule: for every family,
    /// `base_unit().converter()` is the affine map with coefficient one
    /// and constant zero.
    proof fn lemma_base_unit_identity()
        ensures
            Self::base_unit_spec().converter_spec() == UnitConverter::spec_identity(),
    ;

    /// The canonical base unit of the family.
    fn base_unit() -> (u: Self)
        ensures
            u == Self::base_unit_spec(),
    ;

    /// The conversion rule from this unit to the family's base unit,
    /// always a well-formed one.
    fn converter(&self) -> (c: UnitConverter)
        ensures
            c == self.converter_spec(),
            c.wf(),
    ;
}

} // verus!
