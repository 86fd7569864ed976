//! The length family of units; its base unit is meters.

use crate::dimension::Dimension;
use crate::unit::Unit;
use crate::unit_converter::UnitConverter;
use crate::value::Value;
use vstd::prelude::*;
use vstd::std_specs::cmp::PartialEqSpec;

verus! {

/// A unit of length.
#[derive(Debug)]
pub struct Length {
    symbol: &'static str,
    converter: UnitConverter,
}

impl Length {
    #[verifier::type_invariant]
    spec fn inv(self) -> bool {
        self.converter.wf()
    }

    /// Wraps a symbol and a conversion rule as a length unit.
    pub fn new(symbol: &'static str, converter: UnitConverter) -> (r: Self)
        requires
            converter.wf(),
        ensures
            r.symbol_spec() == symbol@,
            r.converter_spec() == converter,
    {
        Length { symbol, converter }
    }

    /// A length unit scaling straight to meters.
    fn with_coeff(symbol: &'static str, coeff: Value) -> (r: Self)
        requires
            coeff.wf(),
        ensures
            r == (Length {
                symbol,
                converter: UnitConverter::Linear { coeff, constant: Value::spec_from_int(0) },
            }),
    {
        Length { symbol, converter: UnitConverter::Linear { coeff, constant: Value::from_int(0) } }
    }

    /// The "meters" unit of length.
    pub fn meters() -> (r: Self)
        ensures
            r == Self::base_unit_spec(),
            r.symbol_spec() == "m"@,
            r.converter_spec() == UnitConverter::spec_identity(),
    {
        Length::with_coeff("m", Value::from_int(1))
    }

    /// The "inches" unit of length: exactly `0.0254` meters.
    pub fn inches() -> (r: Self)
        ensures
            r.symbol_spec() == "in"@,
            r.converter_spec() == (UnitConverter::Linear {
                coeff: Value::spec_decimal(254, 4),
                constant: Value::spec_from_int(0),
            }),
    {
        Length::with_coeff("in", Value::decimal(254, 4))
    }

    /// The "feet" unit of length: exactly `0.3048` meters.
    pub fn feet() -> (r: Self)
        ensures
            r.symbol_spec() == "ft"@,
            r.converter_spec() == (UnitConverter::Linear {
                coeff: Value::spec_decimal(3048, 4),
                constant: Value::spec_from_int(0),
            }),
    {
        Length::with_coeff("ft", Value::decimal(3048, 4))
    }
}

impl Clone for Length {
    /// Duplicates the unit exactly.
    fn clone(&self) -> (r: Self)
        ensures
            r == *self,
    {
        proof {
            use_type_invariant(self);
        }
        Length { symbol: self.symbol, converter: self.converter }
    }
}

impl PartialEq for Length {
    /// Units are equal when their symbols and conversion rules are.
    fn eq(&self, other: &Length) -> (r: bool) {
        let s1: String = self.symbol.to_owned();
        let s2: String = other.symbol.to_owned();
        s1 == s2 && self.converter == other.converter
    }
}

impl vstd::std_specs::cmp::PartialEqSpecImpl for Length {
    open spec fn obeys_eq_spec() -> bool {
        true
    }

    closed spec fn eq_spec(&self, other: &Length) -> bool {
        self.symbol@ == other.symbol@ && self.converter.eq_rule(other.converter)
    }
}

impl Unit for Length {
    closed spec fn symbol_spec(&self) -> Seq<char> {
        self.symbol@
    }

    proof fn lemma_eq_spec_obeyed() {
    }

    proof fn lemma_clone_eq(a: &Self, b: Self) {
    }

    fn symbol(&self) -> (s: String) {
        self.symbol.to_owned()
    }
}

impl Dimension for Length {
    closed spec fn base_unit_spec() -> Self {
        Length { symbol: "m", converter: UnitConverter::spec_identity() }
    }

    closed spec fn converter_spec(&self) -> UnitConverter {
        self.converter
    }

    proof fn lemma_base_unit_identity() {
    }

    fn base_unit() -> (u: Self) {
        Self::meters()
    }

    fn converter(&self) -> (c: UnitConverter) {
        proof {
            use_type_invariant(self);
        }
        self.converter
    }
}

} // verus!
