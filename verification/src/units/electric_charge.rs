//! The electric charge family of units; its base unit is coulombs.

use crate::dimension::Dimension;
use crate::unit::Unit;
use crate::unit_converter::UnitConverter;
use crate::value::Value;
use vstd::prelude::*;
use vstd::std_specs::cmp::PartialEqSpec;

verus! {

/// A unit of electric charge.
#[derive(Debug)]
pub struct ElectricCharge {
    symbol: &'static str,
    converter: UnitConverter,
}

impl ElectricCharge {
    #[verifier::type_invariant]
    spec fn inv(self) -> bool {
        self.converter.wf()
    }

    /// Wraps a symbol and a conversion rule as a electric charge unit.
    pub fn new(symbol: &'static str, converter: UnitConverter) -> (r: Self)
        requires
            converter.wf(),
        ensures
            r.symbol_spec() == symbol@,
            r.converter_spec() == converter,
    {
        ElectricCharge { symbol, converter }
    }

    /// A electric charge unit scaling straight to coulombs.
    fn with_coeff(symbol: &'static str, coeff: Value) -> (r: Self)
        requires
            coeff.wf(),
        ensures
            r == (ElectricCharge {
                symbol,
                converter: UnitConverter::Linear { coeff, constant: Value::spec_from_int(0) },
            }),
    {
        ElectricCharge {
            symbol,
            converter: UnitConverter::Linear { coeff, constant: Value::from_int(0) },
        }
    }

    /// The "coulombs" unit of electric charge.
    pub fn coulombs() -> (r: Self)
        ensures
            r == Self::base_unit_spec(),
            r.symbol_spec() == "C"@,
            r.converter_spec() == UnitConverter::spec_identity(),
    {
        ElectricCharge::with_coeff("C", Value::from_int(1))
    }

    /// The "ampere hours" unit of electric charge: `3600` coulombs.
    pub fn ampere_hours() -> (r: Self)
        ensures
            r.symbol_spec() == "Ah"@,
            r.converter_spec() == (UnitConverter::Linear {
                coeff: Value::spec_from_int(3600),
                constant: Value::spec_from_int(0),
            }),
    {
        ElectricCharge::with_coeff("Ah", Value::from_int(3600))
    }
}

impl Clone for ElectricCharge {
    /// Duplicates the unit exactly.
    fn clone(&self) -> (r: Self)
        ensures
            r == *self,
    {
        proof {
            use_type_invariant(self);
        }
        ElectricCharge { symbol: self.symbol, converter: self.converter }
    }
}

impl PartialEq for ElectricCharge {
    /// Units are equal when their symbols and conversion rules are.
    fn eq(&self, other: &ElectricCharge) -> (r: bool) {
        let s1: String = self.symbol.to_owned();
        let s2: String = other.symbol.to_owned();
        s1 == s2 && self.converter == other.converter
    }
}

impl vstd::std_specs::cmp::PartialEqSpecImpl for ElectricCharge {
    open spec fn obeys_eq_spec() -> bool {
        true
    }

    closed spec fn eq_spec(&self, other: &ElectricCharge) -> bool {
        self.symbol@ == other.symbol@ && self.converter.eq_rule(other.converter)
    }
}

impl Unit for ElectricCharge {
    closed spec fn symbol_spec(&self) -> Seq<char> {
        self.symbol@
    }

    proof fn lemma_eq_spec_obeyed() {
    }

    proof fn lemma_clone_eq(a: &Self, b: Self) {
    }

    fn symbol(&self) -> (s: String) {
        self.symbol.to_owned()
    }
}

impl Dimension for ElectricCharge {
    closed spec fn base_unit_spec() -> Self {
        ElectricCharge { symbol: "C", converter: UnitConverter::spec_identity() }
    }

    closed spec fn converter_spec(&self) -> UnitConverter {
        self.converter
    }

    proof fn lemma_base_unit_identity() {
    }

    fn base_unit() -> (u: Self) {
        Self::coulombs()
    }

    fn converter(&self) -> (c: UnitConverter) {
        proof {
            use_type_invariant(self);
        }
        self.converter
    }
}

} // verus!
