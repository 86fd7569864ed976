//! A numeric quantity labeled with a unit of measure.

use crate::dimension::Dimension;
use crate::unit_converter::UnitConverter;
use crate::unit::Unit;
use crate::value::Value;
use core::cmp::Ordering;
use core::ops::Neg;
use vstd::prelude::*;
use vstd::std_specs::cmp::PartialEqSpec;
use vstd::std_specs::ops::AddSpec;

verus! {

broadcast use
    crate::value::lemma_spec_add_wf,
    crate::value::lemma_spec_sub_wf,
    crate::value::lemma_spec_mul_wf,
    crate::value::lemma_spec_div_wf,
    crate::value::lemma_spec_neg_abs_wf;

/// A numeric quantity labeled with a unit of measure, with support for
/// unit conversion and unit-aware calculations.
#[derive(Clone, Debug)]
pub struct Measurement<U: Unit> {
    pub value: Value,
    pub unit: U,
}

impl<U: Unit> Measurement<U> {
    /// The unit this measurement is expressed in.
    pub open spec fn spec_unit(self) -> U {
        self.unit
    }

    /// Wraps a value with a unit; no validation.
    pub fn new(value: Value, unit: U) -> (m: Self)
        ensures
            m.value == value,
            m.spec_unit() == unit,
    {
        Measurement { value, unit }
    }

    /// The unit this measurement is expressed in.
    pub fn unit(&self) -> (u: &U)
        ensures
            *u == self.spec_unit(),
    {
        &self.unit
    }

    /// A measurement of the absolute value, under the same unit; never
    /// touches the conversion machinery.
    pub fn abs(&self) -> (r: Self)
        ensures
            r.value == self.value.spec_abs(),
            r.spec_unit() == self.spec_unit(),
    {
        let u = self.unit.clone();
        proof {
            U::lemma_clone_eq(&self.unit, u);
        }
        Measurement { value: self.value.abs(), unit: u }
    }
}

impl<U: Dimension> Measurement<U> {
    /// The value of a measurement re-expressed in `to`: unchanged when
    /// `to` equals the present unit; through the forward map alone when
    /// `to` is the family's base unit; and through the base unit as an
    /// intermediate in general.
    pub open spec fn spec_converted_value(v: Value, from: U, to: U) -> Value {
        if to.eq_spec(&from) {
            v
        } else {
            let base = from.converter_spec().spec_to_base(v);
            if to.eq_spec(&U::base_unit_spec()) {
                base
            } else {
                to.converter_spec().spec_from_base(base)
            }
        }
    }

    /// This measurement re-expressed in `unit`.
    ///
    /// Converting to the unit already carried, or straight to the
    /// family's base unit, short-circuits and is exact to the bit: no
    /// round trip through the converter is taken.  Between two other
    /// units the value funnels through the base unit as an intermediate.
    pub fn converted_to(&self, unit: U) -> (r: Self)
        requires
            self.value.wf(),
        ensures
            r.spec_unit() == unit,
            r.value == Self::spec_converted_value(self.value, self.spec_unit(), unit),
            r.value.wf(),
    {
        proof {
            U::lemma_eq_spec_obeyed();
        }
        if unit == self.unit {
            Measurement { value: self.value, unit }
        } else {
            let base_value = self.unit.converter().convert_to_base_unit(self.value);
            if unit == U::base_unit() {
                Measurement { value: base_value, unit }
            } else {
                let value = unit.converter().convert_from_base_unit(base_value);
                Measurement { value, unit }
            }
        }
    }

    /// Adds `other` converted into this measurement's unit, keeping the
    /// unit and mutating only the value — unlike `+`, which collapses
    /// mismatched units to the family's base unit.
    pub fn add_assign(&mut self, other: Self)
        requires
            old(self).value.wf(),
            other.value.wf(),
        ensures
            final(self).spec_unit() == old(self).spec_unit(),
            final(self).value == Value::spec_add(
                old(self).value,
                Self::spec_converted_value(other.value, other.spec_unit(), old(self).spec_unit()),
            ),
            final(self).value.wf(),
    {
        let u = self.unit.clone();
        proof {
            U::lemma_clone_eq(&self.unit, u);
        }
        let o = other.converted_to(u);
        self.value = self.value + o.value;
    }

    /// Subtracts `other` converted into this measurement's unit, keeping
    /// the unit and mutating only the value.
    pub fn sub_assign(&mut self, other: Self)
        requires
            old(self).value.wf(),
            other.value.wf(),
        ensures
            final(self).spec_unit() == old(self).spec_unit(),
            final(self).value == Value::spec_sub(
                old(self).value,
                Self::spec_converted_value(other.value, other.spec_unit(), old(self).spec_unit()),
            ),
            final(self).value.wf(),
    {
        let u = self.unit.clone();
        proof {
            U::lemma_clone_eq(&self.unit, u);
        }
        let o = other.converted_to(u);
        self.value = self.value - o.value;
    }

    /// The comparison `partial_cmp` computes: values compared directly
    /// under a shared unit, base-unit values compared otherwise; `None`
    /// exactly when a `NaN` makes the numeric comparison undefined.
    pub open spec fn spec_cmp(a: Self, b: Self) -> Option<Ordering> {
        if a.unit.eq_spec(&b.unit) {
            a.value.cmp_val(b.value)
        } else {
            a.unit.converter_spec().spec_to_base(a.value).cmp_val(
                b.unit.converter_spec().spec_to_base(b.value),
            )
        }
    }

    /// Compares two measurements of one family, converting to base-unit
    /// values when the units differ.
    pub fn partial_cmp(&self, other: &Self) -> (r: Option<Ordering>)
        requires
            self.value.wf(),
            other.value.wf(),
        ensures
            r == Self::spec_cmp(*self, *other),
    {
        proof {
            U::lemma_eq_spec_obeyed();
        }
        if self.unit == other.unit {
            self.value.partial_cmp(&other.value)
        } else {
            let base_value = self.unit.converter().convert_to_base_unit(self.value);
            let other_base_value = other.unit.converter().convert_to_base_unit(other.value);
            base_value.partial_cmp(&other_base_value)
        }
    }

    /// Identity conversion is exact to the bit: converting to the unit
    /// already carried returns the value unchanged.
    pub proof fn lemma_identity_conversion_exact(v: Value, from: U, to: U)
        requires
            to.eq_spec(&from),
        ensures
            Self::spec_converted_value(v, from, to) == v,
    {
    }

    /// The base-unit short circuit is exact: converting straight to the
    /// family's base unit is the forward map alone, with no detour
    /// through the inverse map.
    pub proof fn lemma_base_unit_conversion_exact(v: Value, from: U, to: U)
        requires
            !to.eq_spec(&from),
            to.eq_spec(&U::base_unit_spec()),
        ensures
            Self::spec_converted_value(v, from, to) == from.converter_spec().spec_to_base(v),
    {
    }

    /// Combining measurements of two different units of one family with
    /// `+` yields the sum of the operands' base-unit values, expressed in
    /// the family's base unit.
    pub proof fn lemma_mixed_addition_collapses_to_base(a: Self, b: Self)
        requires
            !a.unit.eq_spec(&b.unit),
        ensures
            a.add_spec(b).unit == U::base_unit_spec(),
            a.add_spec(b).value == Value::spec_add(
                a.unit.converter_spec().spec_to_base(a.value),
                b.unit.converter_spec().spec_to_base(b.value),
            ),
    {
    }

    /// Round trip: a finite measurement converted from `u1` to `u2` and
    /// back to `u1` recovers its value exactly, whenever both units'
    /// rules are invertible, unit equality is symmetric and consistent
    /// with the base unit's identity rule, and the converted value is
    /// representable.
    pub proof fn lemma_round_trip(v: Value, u1: U, u2: U)
        requires
            v.wf(),
            v is Finite,
            u1.converter_spec().invertible(),
            u2.converter_spec().invertible(),
            u1.eq_spec(&u2) == u2.eq_spec(&u1),
            u1.eq_spec(&U::base_unit_spec()) ==> u1.converter_spec()
                == UnitConverter::spec_identity(),
            u2.eq_spec(&U::base_unit_spec()) ==> u2.converter_spec()
                == UnitConverter::spec_identity(),
            Self::spec_converted_value(v, u1, u2) is Finite,
        ensures
            Self::spec_converted_value(Self::spec_converted_value(v, u1, u2), u2, u1).eq_val(v),
    {
        let c1 = u1.converter_spec();
        let c2 = u2.converter_spec();
        let base = U::base_unit_spec();
        let w = Self::spec_converted_value(v, u1, u2);
        if u2.eq_spec(&u1) {
            crate::value::lemma_eq_val_refl(v);
        } else {
            let b1 = c1.spec_to_base(v);
            let k1 = c1.constant();
            let co1 = c1.coeff();
            let k2 = c2.constant();
            let co2 = c2.coeff();
            if u2.eq_spec(&base) {
                // Forward stops at the base unit: w is the forward image.
                assert(w == b1);
                let b2 = c2.spec_to_base(w);
                crate::unit_converter::lemma_identity_to_base(w);
                if u1.eq_spec(&base) {
                    crate::unit_converter::lemma_identity_to_base(v);
                    crate::value::lemma_eq_val_trans(b2, b1, v);
                } else {
                    crate::unit_converter::lemma_from_base_undoes_to_base(c1, v);
                    let s1 = Value::spec_sub(b1, k1);
                    crate::value::lemma_div_finite_num(s1, co1);
                    let s2 = Value::spec_sub(b2, k1);
                    crate::value::lemma_sub_congr(b2, b1, k1);
                    crate::value::lemma_spec_sub_wf(b2, k1);
                    crate::value::lemma_spec_sub_wf(b1, k1);
                    crate::value::lemma_div_congr(s2, s1, co1);
                    crate::value::lemma_spec_div_wf(s2, co1);
                    crate::value::lemma_spec_div_wf(s1, co1);
                    crate::value::lemma_eq_val_trans(
                        Value::spec_div(s2, co1),
                        Value::spec_div(s1, co1),
                        v,
                    );
                }
            } else {
                // Full conversion: w is the inverse image of the forward
                // image.
                assert(w == c2.spec_from_base(b1));
                let sb = Value::spec_sub(b1, k2);
                crate::value::lemma_div_finite_num(sb, co2);
                crate::value::lemma_sub_finite_parts(b1, k2);
                crate::unit_converter::lemma_to_base_undoes_from_base(c2, b1);
                let b2 = c2.spec_to_base(w);
                if u1.eq_spec(&base) {
                    crate::unit_converter::lemma_identity_to_base(v);
                    crate::value::lemma_eq_val_trans(b2, b1, v);
                } else {
                    crate::unit_converter::lemma_from_base_undoes_to_base(c1, v);
                    let s1 = Value::spec_sub(b1, k1);
                    crate::value::lemma_div_finite_num(s1, co1);
                    let s2 = Value::spec_sub(b2, k1);
                    crate::value::lemma_sub_congr(b2, b1, k1);
                    crate::value::lemma_spec_sub_wf(b2, k1);
                    crate::value::lemma_spec_sub_wf(b1, k1);
                    crate::value::lemma_div_congr(s2, s1, co1);
                    crate::value::lemma_spec_div_wf(s2, co1);
                    crate::value::lemma_spec_div_wf(s1, co1);
                    crate::value::lemma_eq_val_trans(
                        Value::spec_div(s2, co1),
                        Value::spec_div(s1, co1),
                        v,
                    );
                }
            }
        }
    }
}

impl<U: Dimension> core::ops::Add for Measurement<U> {
    type Output = Measurement<U>;

    /// Adds values directly under a shared unit, keeping that unit;
    /// otherwise combines the operands' base-unit values, and the result
    /// is expressed in the family's base unit.
    fn add(self, other: Self) -> (r: Self) {
        proof {
            U::lemma_eq_spec_obeyed();
        }
        if self.unit == other.unit {
            Measurement { value: self.value + other.value, unit: self.unit }
        } else {
            let base_value = self.unit.converter().convert_to_base_unit(self.value);
            let other_base_value = other.unit.converter().convert_to_base_unit(other.value);
            Measurement { value: base_value + other_base_value, unit: U::base_unit() }
        }
    }
}

impl<U: Dimension> vstd::std_specs::ops::AddSpecImpl for Measurement<U> {
    open spec fn obeys_add_spec() -> bool {
        true
    }

    open spec fn add_req(self, rhs: Self) -> bool {
        self.value.wf() && rhs.value.wf()
    }

    open spec fn add_spec(self, rhs: Self) -> Self {
        if self.unit.eq_spec(&rhs.unit) {
            Measurement { value: Value::spec_add(self.value, rhs.value), unit: self.unit }
        } else {
            Measurement {
                value: Value::spec_add(
                    self.unit.converter_spec().spec_to_base(self.value),
                    rhs.unit.converter_spec().spec_to_base(rhs.value),
                ),
                unit: U::base_unit_spec(),
            }
        }
    }
}

impl<U: Dimension> core::ops::Sub for Measurement<U> {
    type Output = Measurement<U>;

    /// Subtracts values directly under a shared unit, keeping that unit;
    /// otherwise combines the operands' base-unit values, and the result
    /// is expressed in the family's base unit.
    fn sub(self, other: Self) -> (r: Self) {
        proof {
            U::lemma_eq_spec_obeyed();
        }
        if self.unit == other.unit {
            Measurement { value: self.value - other.value, unit: self.unit }
        } else {
            let base_value = self.unit.converter().convert_to_base_unit(self.value);
            let other_base_value = other.unit.converter().convert_to_base_unit(other.value);
            Measurement { value: base_value - other_base_value, unit: U::base_unit() }
        }
    }
}

impl<U: Dimension> vstd::std_specs::ops::SubSpecImpl for Measurement<U> {
    open spec fn obeys_sub_spec() -> bool {
        true
    }

    open spec fn sub_req(self, rhs: Self) -> bool {
        self.value.wf() && rhs.value.wf()
    }

    open spec fn sub_spec(self, rhs: Self) -> Self {
        if self.unit.eq_spec(&rhs.unit) {
            Measurement { value: Value::spec_sub(self.value, rhs.value), unit: self.unit }
        } else {
            Measurement {
                value: Value::spec_sub(
                    self.unit.converter_spec().spec_to_base(self.value),
                    rhs.unit.converter_spec().spec_to_base(rhs.value),
                ),
                unit: U::base_unit_spec(),
            }
        }
    }
}

impl<U: Dimension> core::ops::Mul<Value> for Measurement<U> {
    type Output = Measurement<U>;

    /// Scales the value, keeping the unit; conversion is never involved.
    fn mul(self, other: Value) -> (r: Self) {
        Measurement { value: self.value * other, unit: self.unit }
    }
}

impl<U: Dimension> vstd::std_specs::ops::MulSpecImpl<Value> for Measurement<U> {
    open spec fn obeys_mul_spec() -> bool {
        true
    }

    open spec fn mul_req(self, rhs: Value) -> bool {
        self.value.wf() && rhs.wf()
    }

    open spec fn mul_spec(self, rhs: Value) -> Self {
        Measurement { value: Value::spec_mul(self.value, rhs), unit: self.unit }
    }
}

impl<U: Dimension> core::ops::Div<Value> for Measurement<U> {
    type Output = Measurement<U>;

    /// Divides the value by a scalar, keeping the unit; conversion is
    /// never involved.
    fn div(self, other: Value) -> (r: Self) {
        Measurement { value: self.value / other, unit: self.unit }
    }
}

impl<U: Dimension> vstd::std_specs::ops::DivSpecImpl<Value> for Measurement<U> {
    open spec fn obeys_div_spec() -> bool {
        true
    }

    open spec fn div_req(self, rhs: Value) -> bool {
        self.value.wf() && rhs.wf()
    }

    open spec fn div_spec(self, rhs: Value) -> Self {
        Measurement { value: Value::spec_div(self.value, rhs), unit: self.unit }
    }
}

impl<U: Unit> core::ops::Neg for Measurement<U> {
    type Output = Measurement<U>;

    /// Negates the value, keeping the unit.
    fn neg(self) -> (r: Self) {
        Measurement { value: self.value.neg(), unit: self.unit }
    }
}

impl<U: Unit> vstd::std_specs::ops::NegSpecImpl for Measurement<U> {
    open spec fn obeys_neg_spec() -> bool {
        true
    }

    open spec fn neg_req(self) -> bool {
        true
    }

    open spec fn neg_spec(self) -> Self {
        Measurement { value: self.value.spec_neg(), unit: self.unit }
    }
}

impl<U: Unit> PartialEq for Measurement<U> {
    /// Structural equality: equal value and equal unit.  Equality never
    /// cross-converts units, so equivalent quantities expressed in
    /// different units are not equal under this operator.
    fn eq(&self, other: &Self) -> (r: bool) {
        proof {
            U::lemma_eq_spec_obeyed();
        }
        self.value == other.value && self.unit == other.unit
    }
}

impl<U: Unit> vstd::std_specs::cmp::PartialEqSpecImpl for Measurement<U> {
    open spec fn obeys_eq_spec() -> bool {
        true
    }

    open spec fn eq_spec(&self, other: &Self) -> bool {
        self.value.eq_val(other.value) && self.unit.eq_spec(&other.unit)
    }
}

} // verus!
