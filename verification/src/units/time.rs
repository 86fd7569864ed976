//! The time family of units; its base unit is seconds.

use crate::dimension::Dimension;
use crate::unit::Unit;
use crate::unit_converter::UnitConverter;
use crate::value::Value;
use vstd::prelude::*;
use vstd::std_specs::cmp::PartialEqSpec;

verus! {

/// A unit of time.
#[derive(Debug)]
pub struct Time {
    symbol: &'static str,
    converter: UnitConverter,
}

impl Time {
    #[verifier::type_invariant]
    spec fn inv(self) -> bool {
        self.converter.wf()
    }

    /// Wraps a symbol and a conversion rule as a time unit.
    pub fn new(symbol: &'static str, converter: UnitConverter) -> (r: Self)
        requires
            converter.wf(),
        ensures
            r.symbol_spec() == symbol@,
            r.converter_spec() == converter,
    {
        Time { symbol, converter }
    }

    /// A time unit scaling straight to seconds.
    fn with_coeff(symbol: &'static str, coeff: Value) -> (r: Self)
        requires
            coeff.wf(),
        ensures
            r == (Time {
                symbol,
                converter: UnitConverter::Linear { coeff, constant: Value::spec_from_int(0) },
            }),
    {
        Time {
            symbol,
            converter: UnitConverter::Linear { coeff, constant: Value::from_int(0) },
        }
    }

    /// The "seconds" unit of time.
    pub fn seconds() -> (r: Self)
        ensures
            r == Self::base_unit_spec(),
            r.symbol_spec() == "s"@,
            r.converter_spec() == UnitConverter::spec_identity(),
    {
        Time::with_coeff("s", Value::from_int(1))
    }

    /// The "minutes" unit of time: `60` seconds.
    pub fn minutes() -> (r: Self)
        ensures
            r.symbol_spec() == "m"@,
            r.converter_spec() == (UnitConverter::Linear {
                coeff: Value::spec_from_int(60),
                constant: Value::spec_from_int(0),
            }),
    {
        Time::with_coeff("m", Value::from_int(60))
    }

    /// The "hours" unit of time: `3600` seconds.
    pub fn hours() -> (r: Self)
        ensures
            r.symbol_spec() == "h"@,
            r.converter_spec() == (UnitConverter::Linear {
                coeff: Value::spec_from_int(3600),
                constant: Value::spec_from_int(0),
            }),
    {
        Time::with_coeff("h", Value::from_int(3600))
    }
}

impl Clone for Time {
    /// Duplicates the unit exactly.
    fn clone(&self) -> (r: Self)
        ensures
            r == *self,
    {
        proof {
            use_type_invariant(self);
        }
        Time { symbol: self.symbol, converter: self.converter }
    }
}

impl PartialEq for Time {
    /// Units are equal when their symbols and conversion rules are.
    fn eq(&self, other: &Time) -> (r: bool) {
        let s1: String = self.symbol.to_owned();
        let s2: String = other.symbol.to_owned();
        s1 == s2 && self.converter == other.converter
    }
}

impl vstd::std_specs::cmp::PartialEqSpecImpl for Time {
    open spec fn obeys_eq_spec() -> bool {
        true
    }

    closed spec fn eq_spec(&self, other: &Time) -> bool {
        self.symbol@ == other.symbol@ && self.converter.eq_rule(other.converter)
    }
}

impl Unit for Time {
    closed spec fn symbol_spec(&self) -> Seq<char> {
        self.symbol@
    }

    proof fn lemma_eq_spec_obeyed() {
    }

    proof fn lemma_clone_eq(a: &Self, b: Self) {
    }

    fn symbol(&self) -> (s: String) {
        self.symbol.to_owned()
    }
}

impl Dimension for Time {
    closed spec fn base_unit_spec() -> Self {
        Time { symbol: "s", converter: UnitConverter::spec_identity() }
    }

    closed spec fn converter_spec(&self) -> UnitConverter {
        self.converter
    }

    proof fn lemma_base_unit_identity() {
    }

    fn base_unit() -> (u: Self) {
        Self::seconds()
    }

    fn converter(&self) -> (c: UnitConverter) {
        proof {
            use_type_invariant(self);
        }
        self.converter
    }
}

} // verus!
