//! The volume family of units; its base unit is liters.

use crate::dimension::Dimension;
use crate::unit::Unit;
use crate::unit_converter::UnitConverter;
use crate::value::Value;
use vstd::prelude::*;
use vstd::std_specs::cmp::PartialEqSpec;

verus! {

/// A unit of volume.
#[derive(Debug)]
pub struct Volume {
    symbol: &'static str,
    converter: UnitConverter,
}

impl Volume {
    #[verifier::type_invariant]
    spec fn inv(self) -> bool {
        self.converter.wf()
    }

    /// Wraps a symbol and a conversion rule as a volume unit.
    pub fn new(symbol: &'static str, converter: UnitConverter) -> (r: Self)
        requires
            converter.wf(),
        ensures
            r.symbol_spec() == symbol@,
            r.converter_spec() == converter,
    {
        Volume { symbol, converter }
    }

    /// A volume unit scaling straight to liters.
    fn with_coeff(symbol: &'static str, coeff: Value) -> (r: Self)
        requires
            coeff.wf(),
        ensures
            r == (Volume {
                symbol,
                converter: UnitConverter::Linear { coeff, constant: Value::spec_from_int(0) },
            }),
    {
        Volume {
            symbol,
            converter: UnitConverter::Linear { coeff, constant: Value::from_int(0) },
        }
    }

    /// The "liters" unit of volume.
    pub fn liters() -> (r: Self)
        ensures
            r == Self::base_unit_spec(),
            r.symbol_spec() == "L"@,
            r.converter_spec() == UnitConverter::spec_identity(),
    {
        Volume::with_coeff("L", Value::from_int(1))
    }

    /// The "gallons" unit of volume: exactly `3.78541` liters.
    pub fn gallons() -> (r: Self)
        ensures
            r.symbol_spec() == "gal"@,
            r.converter_spec() == (UnitConverter::Linear {
                coeff: Value::spec_decimal(378541, 5),
                constant: Value::spec_from_int(0),
            }),
    {
        Volume::with_coeff("gal", Value::decimal(378541, 5))
    }
}

impl Clone for Volume {
    /// Duplicates the unit exactly.
    fn clone(&self) -> (r: Self)
        ensures
            r == *self,
    {
        proof {
            use_type_invariant(self);
        }
        Volume { symbol: self.symbol, converter: self.converter }
    }
}

impl PartialEq for Volume {
    /// Units are equal when their symbols and conversion rules are.
    fn eq(&self, other: &Volume) -> (r: bool) {
        let s1: String = self.symbol.to_owned();
        let s2: String = other.symbol.to_owned();
        s1 == s2 && self.converter == other.converter
    }
}

impl vstd::std_specs::cmp::PartialEqSpecImpl for Volume {
    open spec fn obeys_eq_spec() -> bool {
        true
    }

    closed spec fn eq_spec(&self, other: &Volume) -> bool {
        self.symbol@ == other.symbol@ && self.converter.eq_rule(other.converter)
    }
}

impl Unit for Volume {
    closed spec fn symbol_spec(&self) -> Seq<char> {
        self.symbol@
    }

    proof fn lemma_eq_spec_obeyed() {
    }

    proof fn lemma_clone_eq(a: &Self, b: Self) {
    }

    fn symbol(&self) -> (s: String) {
        self.symbol.to_owned()
    }
}

impl Dimension for Volume {
    closed spec fn base_unit_spec() -> Self {
        Volume { symbol: "L", converter: UnitConverter::spec_identity() }
    }

    closed spec fn converter_spec(&self) -> UnitConverter {
        self.converter
    }

    proof fn lemma_base_unit_identity() {
    }

    fn base_unit() -> (u: Self) {
        Self::liters()
    }

    fn converter(&self) -> (c: UnitConverter) {
        proof {
            use_type_invariant(self);
        }
        self.converter
    }
}

} // verus!
