//! The electric current family of units; its base unit is amperes.

use crate::dimension::Dimension;
use crate::unit::Unit;
use crate::unit_converter::UnitConverter;
use crate::value::Value;
use vstd::prelude::*;
use vstd::std_specs::cmp::PartialEqSpec;

verus! {

/// A unit of electric current.
#[derive(Debug)]
pub struct ElectricCurrent {
    symbol: &'static str,
    converter: UnitConverter,
}

impl ElectricCurrent {
    #[verifier::type_invariant]
    spec fn inv(self) -> bool {
        self.converter.wf()
    }

    /// Wraps a symbol and a conversion rule as a electric current unit.
    pub fn new(symbol: &'static str, converter: UnitConverter) -> (r: Self)
        requires
            converter.wf(),
        ensures
            r.symbol_spec() == symbol@,
            r.converter_spec() == converter,
    {
        ElectricCurrent { symbol, converter }
    }

    /// A electric current unit scaling straight to amperes.
    fn with_coeff(symbol: &'static str, coeff: Value) -> (r: Self)
        requires
            coeff.wf(),
        ensures
            r == (ElectricCurrent {
                symbol,
                converter: UnitConverter::Linear { coeff, constant: Value::spec_from_int(0) },
            }),
    {
        ElectricCurrent {
            symbol,
            converter: UnitConverter::Linear { coeff, constant: Value::from_int(0) },
        }
    }

    /// The "amperes" unit of electric current.
    pub fn amperes() -> (r: Self)
        ensures
            r == Self::base_unit_spec(),
            r.symbol_spec() == "A"@,
            r.converter_spec() == UnitConverter::spec_identity(),
    {
        ElectricCurrent::with_coeff("A", Value::from_int(1))
    }
}

impl Clone for ElectricCurrent {
    /// Duplicates the unit exactly.
    fn clone(&self) -> (r: Self)
        ensures
            r == *self,
    {
        proof {
            use_type_invariant(self);
        }
        ElectricCurrent { symbol: self.symbol, converter: self.converter }
    }
}

impl PartialEq for ElectricCurrent {
    /// Units are equal when their symbols and conversion rules are.
    fn eq(&self, other: &ElectricCurrent) -> (r: bool) {
        let s1: String = self.symbol.to_owned();
        let s2: String = other.symbol.to_owned();
        s1 == s2 && self.converter == other.converter
    }
}

impl vstd::std_specs::cmp::PartialEqSpecImpl for ElectricCurrent {
    open spec fn obeys_eq_spec() -> bool {
        true
    }

    closed spec fn eq_spec(&self, other: &ElectricCurrent) -> bool {
        self.symbol@ == other.symbol@ && self.converter.eq_rule(other.converter)
    }
}

impl Unit for ElectricCurrent {
    closed spec fn symbol_spec(&self) -> Seq<char> {
        self.symbol@
    }

    proof fn lemma_eq_spec_obeyed() {
    }

    proof fn lemma_clone_eq(a: &Self, b: Self) {
    }

    fn symbol(&self) -> (s: String) {
        self.symbol.to_owned()
    }
}

impl Dimension for ElectricCurrent {
    closed spec fn base_unit_spec() -> Self {
        ElectricCurrent { symbol: "A", converter: UnitConverter::spec_identity() }
    }

    closed spec fn converter_spec(&self) -> UnitConverter {
        self.converter
    }

    proof fn lemma_base_unit_identity() {
    }

    fn base_unit() -> (u: Self) {
        Self::amperes()
    }

    fn converter(&self) -> (c: UnitConverter) {
        proof {
            use_type_invariant(self);
        }
        self.converter
    }
}

} // verus!
