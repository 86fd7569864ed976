//! The area family of units; its base unit is square millimeters.

use crate::dimension::Dimension;
use crate::unit::Unit;
use crate::unit_converter::UnitConverter;
use crate::value::Value;
use vstd::prelude::*;
use vstd::std_specs::cmp::PartialEqSpec;

verus! {

/// A unit of area.
#[derive(Debug)]
pub struct Area {
    symbol: &'static str,
    converter: UnitConverter,
}

impl Area {
    #[verifier::type_invariant]
    spec fn inv(self) -> bool {
        self.converter.wf()
    }

    /// Wraps a symbol and a conversion rule as a area unit.
    pub fn new(symbol: &'static str, converter: UnitConverter) -> (r: Self)
        requires
            converter.wf(),
        ensures
            r.symbol_spec() == symbol@,
            r.converter_spec() == converter,
    {
        Area { symbol, converter }
    }

    /// A area unit scaling straight to square millimeters.
    fn with_coeff(symbol: &'static str, coeff: Value) -> (r: Self)
        requires
            coeff.wf(),
        ensures
            r == (Area {
                symbol,
                converter: UnitConverter::Linear { coeff, constant: Value::spec_from_int(0) },
            }),
    {
        Area {
            symbol,
            converter: UnitConverter::Linear { coeff, constant: Value::from_int(0) },
        }
    }

    /// The "square millimeters" (mm2) unit of area.
    pub fn square_millimeters() -> (r: Self)
        ensures
            r == Self::base_unit_spec(),
            r.symbol_spec() == "mm2"@,
            r.converter_spec() == UnitConverter::spec_identity(),
    {
        Area::with_coeff("mm2", Value::from_int(1))
    }

    /// The "square meters" (m2) unit of area: `1000000` square millimeters.
    pub fn square_meters() -> (r: Self)
        ensures
            r.symbol_spec() == "m2"@,
            r.converter_spec() == (UnitConverter::Linear {
                coeff: Value::spec_from_int(1000000),
                constant: Value::spec_from_int(0),
            }),
    {
        Area::with_coeff("m2", Value::from_int(1000000))
    }
}

impl Clone for Area {
    /// Duplicates the unit exactly.
    fn clone(&self) -> (r: Self)
        ensures
            r == *self,
    {
        proof {
            use_type_invariant(self);
        }
        Area { symbol: self.symbol, converter: self.converter }
    }
}

impl PartialEq for Area {
    /// Units are equal when their symbols and conversion rules are.
    fn eq(&self, other: &Area) -> (r: bool) {
        let s1: String = self.symbol.to_owned();
        let s2: String = other.symbol.to_owned();
        s1 == s2 && self.converter == other.converter
    }
}

impl vstd::std_specs::cmp::PartialEqSpecImpl for Area {
    open spec fn obeys_eq_spec() -> bool {
        true
    }

    closed spec fn eq_spec(&self, other: &Area) -> bool {
        self.symbol@ == other.symbol@ && self.converter.eq_rule(other.converter)
    }
}

impl Unit for Area {
    closed spec fn symbol_spec(&self) -> Seq<char> {
        self.symbol@
    }

    proof fn lemma_eq_spec_obeyed() {
    }

    proof fn lemma_clone_eq(a: &Self, b: Self) {
    }

    fn symbol(&self) -> (s: String) {
        self.symbol.to_owned()
    }
}

impl Dimension for Area {
    closed spec fn base_unit_spec() -> Self {
        Area { symbol: "mm2", converter: UnitConverter::spec_identity() }
    }

    closed spec fn converter_spec(&self) -> UnitConverter {
        self.converter
    }

    proof fn lemma_base_unit_identity() {
    }

    fn base_unit() -> (u: Self) {
        Self::square_millimeters()
    }

    fn converter(&self) -> (c: UnitConverter) {
        proof {
            use_type_invariant(self);
        }
        self.converter
    }
}

} // verus!
