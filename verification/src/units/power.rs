//! The power family of units; its base unit is watts.

use crate::dimension::Dimension;
use crate::unit::Unit;
use crate::unit_converter::UnitConverter;
use crate::value::Value;
use vstd::prelude::*;
use vstd::std_specs::cmp::PartialEqSpec;

verus! {

/// A unit of power.
#[derive(Debug)]
pub struct Power {
    symbol: &'static str,
    converter: UnitConverter,
}

impl Power {
    #[verifier::type_invariant]
    spec fn inv(self) -> bool {
        self.converter.wf()
    }

    /// Wraps a symbol and a conversion rule as a power unit.
    pub fn new(symbol: &'static str, converter: UnitConverter) -> (r: Self)
        requires
            converter.wf(),
        ensures
            r.symbol_spec() == symbol@,
            r.converter_spec() == converter,
    {
        Power { symbol, converter }
    }

    /// A power unit scaling straight to watts.
    fn with_coeff(symbol: &'static str, coeff: Value) -> (r: Self)
        requires
            coeff.wf(),
        ensures
            r == (Power {
                symbol,
                converter: UnitConverter::Linear { coeff, constant: Value::spec_from_int(0) },
            }),
    {
        Power {
            symbol,
            converter: UnitConverter::Linear { coeff, constant: Value::from_int(0) },
        }
    }

    /// The "watts" unit of power.
    pub fn watts() -> (r: Self)
        ensures
            r == Self::base_unit_spec(),
            r.symbol_spec() == "W"@,
            r.converter_spec() == UnitConverter::spec_identity(),
    {
        Power::with_coeff("W", Value::from_int(1))
    }

    /// The "kilowatts" unit of power: `1000` watts.
    pub fn kilowatts() -> (r: Self)
        ensures
            r.symbol_spec() == "kW"@,
            r.converter_spec() == (UnitConverter::Linear {
                coeff: Value::spec_from_int(1000),
                constant: Value::spec_from_int(0),
            }),
    {
        Power::with_coeff("kW", Value::from_int(1000))
    }
}

impl Clone for Power {
    /// Duplicates the unit exactly.
    fn clone(&self) -> (r: Self)
        ensures
            r == *self,
    {
        proof {
            use_type_invariant(self);
        }
        Power { symbol: self.symbol, converter: self.converter }
    }
}

impl PartialEq for Power {
    /// Units are equal when their symbols and conversion rules are.
    fn eq(&self, other: &Power) -> (r: bool) {
        let s1: String = self.symbol.to_owned();
        let s2: String = other.symbol.to_owned();
        s1 == s2 && self.converter == other.converter
    }
}

impl vstd::std_specs::cmp::PartialEqSpecImpl for Power {
    open spec fn obeys_eq_spec() -> bool {
        true
    }

    closed spec fn eq_spec(&self, other: &Power) -> bool {
        self.symbol@ == other.symbol@ && self.converter.eq_rule(other.converter)
    }
}

impl Unit for Power {
    closed spec fn symbol_spec(&self) -> Seq<char> {
        self.symbol@
    }

    proof fn lemma_eq_spec_obeyed() {
    }

    proof fn lemma_clone_eq(a: &Self, b: Self) {
    }

    fn symbol(&self) -> (s: String) {
        self.symbol.to_owned()
    }
}

impl Dimension for Power {
    closed spec fn base_unit_spec() -> Self {
        Power { symbol: "W", converter: UnitConverter::spec_identity() }
    }

    closed spec fn converter_spec(&self) -> UnitConverter {
        self.converter
    }

    proof fn lemma_base_unit_identity() {
    }

    fn base_unit() -> (u: Self) {
        Self::watts()
    }

    fn converter(&self) -> (c: UnitConverter) {
        proof {
            use_type_invariant(self);
        }
        self.converter
    }
}

} // verus!
