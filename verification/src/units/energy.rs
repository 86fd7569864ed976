//! The energy family of units; its base unit is joules.

use crate::dimension::Dimension;
use crate::unit::Unit;
use crate::unit_converter::UnitConverter;
use crate::value::Value;
use vstd::prelude::*;
use vstd::std_specs::cmp::PartialEqSpec;

verus! {

/// A unit of energy.
#[derive(Debug)]
pub struct Energy {
    symbol: &'static str,
    converter: UnitConverter,
}

impl Energy {
    #[verifier::type_invariant]
    spec fn inv(self) -> bool {
        self.converter.wf()
    }

    /// Wraps a symbol and a conversion rule as a energy unit.
    pub fn new(symbol: &'static str, converter: UnitConverter) -> (r: Self)
        requires
            converter.wf(),
        ensures
            r.symbol_spec() == symbol@,
            r.converter_spec() == converter,
    {
        Energy { symbol, converter }
    }

    /// A energy unit scaling straight to joules.
    fn with_coeff(symbol: &'static str, coeff: Value) -> (r: Self)
        requires
            coeff.wf(),
        ensures
            r == (Energy {
                symbol,
                converter: UnitConverter::Linear { coeff, constant: Value::spec_from_int(0) },
            }),
    {
        Energy {
            symbol,
            converter: UnitConverter::Linear { coeff, constant: Value::from_int(0) },
        }
    }

    /// The "joules" unit of energy.
    pub fn joules() -> (r: Self)
        ensures
            r == Self::base_unit_spec(),
            r.symbol_spec() == "J"@,
            r.converter_spec() == UnitConverter::spec_identity(),
    {
        Energy::with_coeff("J", Value::from_int(1))
    }

    /// The "watt hours" unit of energy: `3600` joules.
    pub fn watt_hours() -> (r: Self)
        ensures
            r.symbol_spec() == "Wh"@,
            r.converter_spec() == (UnitConverter::Linear {
                coeff: Value::spec_from_int(3600),
                constant: Value::spec_from_int(0),
            }),
    {
        Energy::with_coeff("Wh", Value::from_int(3600))
    }

    /// The "kilowatt hours" unit of energy: `3600000` joules.
    pub fn kilowatt_hours() -> (r: Self)
        ensures
            r.symbol_spec() == "kWh"@,
            r.converter_spec() == (UnitConverter::Linear {
                coeff: Value::spec_from_int(3600000),
                constant: Value::spec_from_int(0),
            }),
    {
        Energy::with_coeff("kWh", Value::from_int(3600000))
    }
}

impl Clone for Energy {
    /// Duplicates the unit exactly.
    fn clone(&self) -> (r: Self)
        ensures
            r == *self,
    {
        proof {
            use_type_invariant(self);
        }
        Energy { symbol: self.symbol, converter: self.converter }
    }
}

impl PartialEq for Energy {
    /// Units are equal when their symbols and conversion rules are.
    fn eq(&self, other: &Energy) -> (r: bool) {
        let s1: String = self.symbol.to_owned();
        let s2: String = other.symbol.to_owned();
        s1 == s2 && self.converter == other.converter
    }
}

impl vstd::std_specs::cmp::PartialEqSpecImpl for Energy {
    open spec fn obeys_eq_spec() -> bool {
        true
    }

    closed spec fn eq_spec(&self, other: &Energy) -> bool {
        self.symbol@ == other.symbol@ && self.converter.eq_rule(other.converter)
    }
}

impl Unit for Energy {
    closed spec fn symbol_spec(&self) -> Seq<char> {
        self.symbol@
    }

    proof fn lemma_eq_spec_obeyed() {
    }

    proof fn lemma_clone_eq(a: &Self, b: Self) {
    }

    fn symbol(&self) -> (s: String) {
        self.symbol.to_owned()
    }
}

impl Dimension for Energy {
    closed spec fn base_unit_spec() -> Self {
        Energy { symbol: "J", converter: UnitConverter::spec_identity() }
    }

    closed spec fn converter_spec(&self) -> UnitConverter {
        self.converter
    }

    proof fn lemma_base_unit_identity() {
    }

    fn base_unit() -> (u: Self) {
        Self::joules()
    }

    fn converter(&self) -> (c: UnitConverter) {
        proof {
            use_type_invariant(self);
        }
        self.converter
    }
}

} // verus!
