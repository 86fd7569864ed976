//! The conversion rule between a unit and its family's base unit.

use crate::value::Value;
use vstd::prelude::*;

verus! {

broadcast use
    crate::value::lemma_spec_add_wf,
    crate::value::lemma_spec_sub_wf,
    crate::value::lemma_spec_mul_wf,
    crate::value::lemma_spec_div_wf;

/// A rule mapping a value in some unit to and from the unit family's base
/// unit.  The one variant today is the affine map
/// `base = value * coeff + constant`; the dispatch is a match, so a
/// future non-affine rule can be added without touching `Measurement`.
///
/// The inverse map divides by `coeff`; with a zero coefficient it yields
/// a signed infinity, or `NaN` for a base value equal to `constant`,
/// exactly as the division of [`Value`]s defines.
#[derive(Clone, Copy, Debug)]
pub enum UnitConverter {
    Linear { coeff: Value, constant: Value },
}

impl UnitConverter {
    /// Both parts of the rule are well-formed values.
    pub open spec fn wf(self) -> bool {
        match self {
            UnitConverter::Linear { coeff, constant } => coeff.wf() && constant.wf(),
        }
    }

    /// The identity rule, which every family's base unit carries.
    pub open spec fn spec_identity() -> UnitConverter {
        UnitConverter::Linear {
            coeff: Value::spec_from_int(1),
            constant: Value::spec_from_int(0),
        }
    }

    /// The forward affine map into the base unit.
    pub open spec fn spec_to_base(self, val: Value) -> Value {
        match self {
            UnitConverter::Linear { coeff, constant } => Value::spec_add(
                Value::spec_mul(val, coeff),
                constant,
            ),
        }
    }

    /// The coefficient of the rule.
    pub open spec fn coeff(self) -> Value {
        match self {
            UnitConverter::Linear { coeff, .. } => coeff,
        }
    }

    /// The constant of the rule.
    pub open spec fn constant(self) -> Value {
        match self {
            UnitConverter::Linear { constant, .. } => constant,
        }
    }

    /// The rule can be inverted exactly: its coefficient is finite and
    /// nonzero and its constant is finite.
    pub open spec fn invertible(self) -> bool {
        &&& self.wf()
        &&& self.coeff() is Finite
        &&& self.coeff().fnum() != 0
        &&& self.constant() is Finite
    }

    /// What equality of conversion rules means: equal parts, as values.
    pub open spec fn eq_rule(self, other: UnitConverter) -> bool {
        match (self, other) {
            (
                UnitConverter::Linear { coeff: c1, constant: k1 },
                UnitConverter::Linear { coeff: c2, constant: k2 },
            ) => c1.eq_val(c2) && k1.eq_val(k2),
        }
    }

    /// The inverse affine map out of the base unit.
    pub open spec fn spec_from_base(self, val: Value) -> Value {
        match self {
            UnitConverter::Linear { coeff, constant } => Value::spec_div(
                Value::spec_sub(val, constant),
                coeff,
            ),
        }
    }

    /// Applies the forward map: `val * coeff + constant`.
    pub fn convert_to_base_unit(&self, val: Value) -> (r: Value)
        requires
            self.wf(),
            val.wf(),
        ensures
            r == self.spec_to_base(val),
            r.wf(),
    {
        match self {
            UnitConverter::Linear { coeff, constant } => (val * *coeff) + *constant,
        }
    }

    /// Applies the inverse map: `(val - constant) / coeff`.
    pub fn convert_from_base_unit(&self, val: Value) -> (r: Value)
        requires
            self.wf(),
            val.wf(),
        ensures
            r == self.spec_from_base(val),
            r.wf(),
    {
        match self {
            UnitConverter::Linear { coeff, constant } => (val - *constant) / *coeff,
        }
    }
}

impl PartialEq for UnitConverter {
    /// Rules are equal when their parts are equal values, in the
    /// floating-point sense of value equality.
    fn eq(&self, other: &UnitConverter) -> (r: bool) {
        match (self, other) {
            (
                UnitConverter::Linear { coeff: c1, constant: k1 },
                UnitConverter::Linear { coeff: c2, constant: k2 },
            ) => *c1 == *c2 && *k1 == *k2,
        }
    }
}

impl vstd::std_specs::cmp::PartialEqSpecImpl for UnitConverter {
    open spec fn obeys_eq_spec() -> bool {
        true
    }

    open spec fn eq_spec(&self, other: &UnitConverter) -> bool {
        self.eq_rule(*other)
    }
}


/// The identity rule leaves a finite value unchanged, up to the sign of
/// a zero.
pub proof fn lemma_identity_to_base(v: Value)
    requires
        v.wf(),
        v is Finite,
    ensures
        UnitConverter::spec_identity().spec_to_base(v) is Finite,
        UnitConverter::spec_identity().spec_to_base(v).eq_val(v),
{
    crate::value::lemma_mul_one(v);
    crate::value::lemma_add_zero(v);
}

/// Applying a rule forward and backward again recovers the value
/// exactly, whenever the forward image is representable.
pub proof fn lemma_from_base_undoes_to_base(c: UnitConverter, v: Value)
    requires
        c.invertible(),
        v.wf(),
        v is Finite,
        c.spec_to_base(v) is Finite,
    ensures
        c.spec_from_base(c.spec_to_base(v)) is Finite,
        c.spec_from_base(c.spec_to_base(v)).eq_val(v),
{
    let k = c.constant();
    let co = c.coeff();
    let m = Value::spec_mul(v, co);
    let b = c.spec_to_base(v);
    crate::value::lemma_mul_finite_from_add(v, co, k);
    crate::value::lemma_spec_mul_wf(v, co);
    crate::value::lemma_add_sub_exact(m, k);
    let s = Value::spec_sub(b, k);
    crate::value::lemma_spec_sub_wf(b, k);
    crate::value::lemma_div_congr(s, m, co);
    crate::value::lemma_mul_div_exact(v, co);
    crate::value::lemma_spec_div_wf(s, co);
    crate::value::lemma_spec_div_wf(m, co);
    crate::value::lemma_eq_val_trans(
        Value::spec_div(s, co),
        Value::spec_div(m, co),
        v,
    );
}

/// Applying a rule backward and forward again recovers the base value
/// exactly, whenever the backward image is representable.
pub proof fn lemma_to_base_undoes_from_base(c: UnitConverter, b: Value)
    requires
        c.invertible(),
        b.wf(),
        b is Finite,
        c.spec_from_base(b) is Finite,
    ensures
        c.spec_to_base(c.spec_from_base(b)) is Finite,
        c.spec_to_base(c.spec_from_base(b)).eq_val(b),
{
    let k = c.constant();
    let co = c.coeff();
    let s = Value::spec_sub(b, k);
    let w = c.spec_from_base(b);
    crate::value::lemma_div_finite_num(s, co);
    crate::value::lemma_spec_sub_wf(b, k);
    crate::value::lemma_div_mul_exact(s, co);
    crate::value::lemma_spec_div_wf(s, co);
    crate::value::lemma_spec_mul_wf(w, co);
    crate::value::lemma_add_congr(Value::spec_mul(w, co), s, k);
    crate::value::lemma_sub_add_exact(b, k);
    crate::value::lemma_eq_val_trans(
        Value::spec_add(Value::spec_mul(w, co), k),
        Value::spec_add(s, k),
        b,
    );
}

} // verus!
