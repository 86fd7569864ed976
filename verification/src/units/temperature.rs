//! The temperature family of units; its base unit is kelvin.

use crate::dimension::Dimension;
use crate::unit::Unit;
use crate::unit_converter::UnitConverter;
use crate::value::Value;
use vstd::prelude::*;
use vstd::std_specs::cmp::PartialEqSpec;

verus! {

/// A unit of temperature.
#[derive(Debug)]
pub struct Temperature {
    symbol: &'static str,
    converter: UnitConverter,
}

impl Temperature {
    #[verifier::type_invariant]
    spec fn inv(self) -> bool {
        self.converter.wf()
    }

    /// Wraps a symbol and a conversion rule as a temperature unit.
    pub fn new(symbol: &'static str, converter: UnitConverter) -> (r: Self)
        requires
            converter.wf(),
        ensures
            r.symbol_spec() == symbol@,
            r.converter_spec() == converter,
    {
        Temperature { symbol, converter }
    }

    /// A temperature unit mapping affinely to kelvin.
    fn with_coeff_and_constant(symbol: &'static str, coeff: Value, constant: Value) -> (r: Self)
        requires
            coeff.wf(),
            constant.wf(),
        ensures
            r == (Temperature {
                symbol,
                converter: UnitConverter::Linear { coeff, constant },
            }),
    {
        Temperature { symbol, converter: UnitConverter::Linear { coeff, constant } }
    }

    /// The "kelvin" unit of temperature.
    pub fn kelvin() -> (r: Self)
        ensures
            r == Self::base_unit_spec(),
            r.symbol_spec() == "K"@,
            r.converter_spec() == UnitConverter::spec_identity(),
    {
        Temperature::with_coeff_and_constant("K", Value::from_int(1), Value::from_int(0))
    }

    /// The "degrees Celsius" unit of temperature: kelvin shifted by
    /// exactly `273.15`.
    pub fn celsius() -> (r: Self)
        ensures
            r.symbol_spec() == "°C"@,
            r.converter_spec() == (UnitConverter::Linear {
                coeff: Value::spec_from_int(1),
                constant: Value::spec_decimal(27315, 2),
            }),
    {
        Temperature::with_coeff_and_constant("°C", Value::from_int(1), Value::decimal(27315, 2))
    }

    /// The "degrees Fahrenheit" unit of temperature, by the decimal
    /// approximations `0.55555555555556` and `255.37222222222427` of its
    /// affine map to kelvin.
    pub fn fahrenheit() -> (r: Self)
        ensures
            r.symbol_spec() == "°F"@,
            r.converter_spec() == (UnitConverter::Linear {
                coeff: Value::spec_decimal(55555555555556, 14),
                constant: Value::spec_decimal(25537222222222427, 14),
            }),
    {
        Temperature::with_coeff_and_constant(
            "°F",
            Value::decimal(55555555555556, 14),
            Value::decimal(25537222222222427, 14),
        )
    }
}

impl Clone for Temperature {
    /// Duplicates the unit exactly.
    fn clone(&self) -> (r: Self)
        ensures
            r == *self,
    {
        proof {
            use_type_invariant(self);
        }
        Temperature { symbol: self.symbol, converter: self.converter }
    }
}

impl PartialEq for Temperature {
    /// Units are equal when their symbols and conversion rules are.
    fn eq(&self, other: &Temperature) -> (r: bool) {
        let s1: String = self.symbol.to_owned();
        let s2: String = other.symbol.to_owned();
        s1 == s2 && self.converter == other.converter
    }
}

impl vstd::std_specs::cmp::PartialEqSpecImpl for Temperature {
    open spec fn obeys_eq_spec() -> bool {
        true
    }

    closed spec fn eq_spec(&self, other: &Temperature) -> bool {
        self.symbol@ == other.symbol@ && self.converter.eq_rule(other.converter)
    }
}

impl Unit for Temperature {
    closed spec fn symbol_spec(&self) -> Seq<char> {
        self.symbol@
    }

    proof fn lemma_eq_spec_obeyed() {
    }

    proof fn lemma_clone_eq(a: &Self, b: Self) {
    }

    fn symbol(&self) -> (s: String) {
        self.symbol.to_owned()
    }
}

impl Dimension for Temperature {
    closed spec fn base_unit_spec() -> Self {
        Temperature { symbol: "K", converter: UnitConverter::spec_identity() }
    }

    closed spec fn converter_spec(&self) -> UnitConverter {
        self.converter
    }

    proof fn lemma_base_unit_identity() {
    }

    fn base_unit() -> (u: Self) {
        Self::kelvin()
    }

    fn converter(&self) -> (c: UnitConverter) {
        proof {
            use_type_invariant(self);
        }
        self.converter
    }
}

} // verus!
