//! The electric resistance family of units; its base unit is ohms.

use crate::dimension::Dimension;
use crate::unit::Unit;
use crate::unit_converter::UnitConverter;
use crate::value::Value;
use vstd::prelude::*;
use vstd::std_specs::cmp::PartialEqSpec;

verus! {

/// A unit of electric resistance.
#[derive(Debug)]
pub struct ElectricResistance {
    symbol: &'static str,
    converter: UnitConverter,
}

impl ElectricResistance {
    #[verifier::type_invariant]
    spec fn inv(self) -> bool {
        self.converter.wf()
    }

    /// Wraps a symbol and a conversion rule as a electric resistance unit.
    pub fn new(symbol: &'static str, converter: UnitConverter) -> (r: Self)
        requires
            converter.wf(),
        ensures
            r.symbol_spec() == symbol@,
            r.converter_spec() == converter,
    {
        ElectricResistance { symbol, converter }
    }

    /// A electric resistance unit scaling straight to ohms.
    fn with_coeff(symbol: &'static str, coeff: Value) -> (r: Self)
        requires
            coeff.wf(),
        ensures
            r == (ElectricResistance {
                symbol,
                converter: UnitConverter::Linear { coeff, constant: Value::spec_from_int(0) },
            }),
    {
        ElectricResistance {
            symbol,
            converter: UnitConverter::Linear { coeff, constant: Value::from_int(0) },
        }
    }

    /// The "ohms" unit of electric resistance.
    pub fn ohms() -> (r: Self)
        ensures
            r == Self::base_unit_spec(),
            r.symbol_spec() == "Ω"@,
            r.converter_spec() == UnitConverter::spec_identity(),
    {
        ElectricResistance::with_coeff("Ω", Value::from_int(1))
    }
}

impl Clone for ElectricResistance {
    /// Duplicates the unit exactly.
    fn clone(&self) -> (r: Self)
        ensures
            r == *self,
    {
        proof {
            use_type_invariant(self);
        }
        ElectricResistance { symbol: self.symbol, converter: self.converter }
    }
}

impl PartialEq for ElectricResistance {
    /// Units are equal when their symbols and conversion rules are.
    fn eq(&self, other: &ElectricResistance) -> (r: bool) {
        let s1: String = self.symbol.to_owned();
        let s2: String = other.symbol.to_owned();
        s1 == s2 && self.converter == other.converter
    }
}

impl vstd::std_specs::cmp::PartialEqSpecImpl for ElectricResistance {
    open spec fn obeys_eq_spec() -> bool {
        true
    }

    closed spec fn eq_spec(&self, other: &ElectricResistance) -> bool {
        self.symbol@ == other.symbol@ && self.converter.eq_rule(other.converter)
    }
}

impl Unit for ElectricResistance {
    closed spec fn symbol_spec(&self) -> Seq<char> {
        self.symbol@
    }

    proof fn lemma_eq_spec_obeyed() {
    }

    proof fn lemma_clone_eq(a: &Self, b: Self) {
    }

    fn symbol(&self) -> (s: String) {
        self.symbol.to_owned()
    }
}

impl Dimension for ElectricResistance {
    closed spec fn base_unit_spec() -> Self {
        ElectricResistance { symbol: "Ω", converter: UnitConverter::spec_identity() }
    }

    closed spec fn converter_spec(&self) -> UnitConverter {
        self.converter
    }

    proof fn lemma_base_unit_identity() {
    }

    fn base_unit() -> (u: Self) {
        Self::ohms()
    }

    fn converter(&self) -> (c: UnitConverter) {
        proof {
            use_type_invariant(self);
        }
        self.converter
    }
}

} // verus!
