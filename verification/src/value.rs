//! The numeric scalar of the library: an exact rational number extended
//! with signed zeros, signed infinities and a not-a-number marker.
//!
//! A finite value is a sign together with a magnitude `num / den` kept in
//! lowest terms, both parts bounded by [`Value::MAX_MAG`].  Arithmetic is
//! exact: an operation whose exact result cannot be represented within
//! those bounds yields [`Value::NaN`].  Division by zero yields a signed
//! infinity or, for zero over zero, [`Value::NaN`]; signs of zeros and the
//! propagation of [`Value::NaN`] through every operation follow the usual
//! floating-point conventions, as does equality, under which a negative
//! zero equals a positive zero and [`Value::NaN`] differs from itself.

use crate::rational::{
    gcd, gcd_u128, lemma_div_exact, lemma_gcd_divides, lemma_gcd_pos, lemma_gcd_reduced,
};
use core::cmp::Ordering;
use core::ops::Neg;
use vstd::prelude::*;

verus! {

/// A numeric value: a signed exact fraction, a signed infinity, or
/// not-a-number.
#[derive(Clone, Copy, Debug)]
pub enum Value {
    /// `(-1)^neg * num / den`, with `den >= 1`, `gcd(num, den) == 1` and
    /// both parts at most [`Value::MAX_MAG`].  `num == 0` with `neg` set is
    /// the negative zero.
    Finite { neg: bool, num: u64, den: u64 },
    /// A signed infinity, as produced by dividing a nonzero value by zero.
    Infinite { neg: bool },
    /// Not-a-number: zero over zero, arithmetic on `NaN`, or an exact
    /// result too large or too fine to represent.
    NaN,
}

impl Value {
    /// Bound on the numerator and denominator magnitudes of a finite value.
    pub const MAX_MAG: u64 = 9223372036854775808;

    /// A finite value is well-formed when its fraction is in lowest terms
    /// with a positive denominator and bounded parts; infinities and
    /// not-a-number carry no data to constrain.
    pub open spec fn wf(self) -> bool {
        match self {
            Value::Finite { neg, num, den } => {
                &&& 1 <= den <= Value::MAX_MAG
                &&& num <= Value::MAX_MAG
                &&& gcd(num as nat, den as nat) == 1
            },
            _ => true,
        }
    }

    pub open spec fn spec_is_finite(self) -> bool {
        self is Finite
    }

    pub open spec fn spec_is_infinite(self) -> bool {
        self is Infinite
    }

    pub open spec fn spec_is_nan(self) -> bool {
        self is NaN
    }

    /// The sign bit; not-a-number reads as positive.
    pub open spec fn spec_sign_neg(self) -> bool {
        match self {
            Value::Finite { neg, .. } => neg,
            Value::Infinite { neg } => neg,
            Value::NaN => false,
        }
    }

    /// Signed numerator of a finite value.
    pub open spec fn snum(self) -> int
        recommends
            self.spec_is_finite(),
    {
        match self {
            Value::Finite { neg, num, .. } => if neg {
                -(num as int)
            } else {
                num as int
            },
            _ => 0,
        }
    }

    /// Denominator of a finite value.
    pub open spec fn sden(self) -> int
        recommends
            self.spec_is_finite(),
    {
        match self {
            Value::Finite { den, .. } => den as int,
            _ => 1,
        }
    }

    /// The finite value representing the fraction `(-1)^neg * n / d`, in
    /// lowest terms, or `NaN` when the lowest terms exceed the magnitude
    /// bound.
    pub open spec fn rat_make(neg: bool, n: nat, d: nat) -> Value
        recommends
            d >= 1,
    {
        let g = gcd(n, d);
        let n2 = n / g;
        let d2 = d / g;
        if n2 <= Value::MAX_MAG && d2 <= Value::MAX_MAG {
            Value::Finite { neg, num: n2 as u64, den: d2 as u64 }
        } else {
            Value::NaN
        }
    }

    /// Equality in the floating-point sense: `NaN` equals nothing, the two
    /// zeros are equal, and finite values compare as fractions.
    pub open spec fn eq_val(self, other: Value) -> bool {
        match (self, other) {
            (Value::Finite { .. }, Value::Finite { .. }) => self.snum() * other.sden()
                == other.snum() * self.sden(),
            (Value::Infinite { neg: a }, Value::Infinite { neg: b }) => a == b,
            _ => false,
        }
    }

    /// Three-way comparison in the floating-point sense: `None` exactly
    /// when one side is `NaN`.
    pub open spec fn cmp_val(self, other: Value) -> Option<Ordering> {
        match (self, other) {
            (Value::NaN, _) => None,
            (_, Value::NaN) => None,
            (Value::Infinite { neg: a }, Value::Infinite { neg: b }) => if a == b {
                Some(Ordering::Equal)
            } else if a {
                Some(Ordering::Less)
            } else {
                Some(Ordering::Greater)
            },
            (Value::Infinite { neg: a }, Value::Finite { .. }) => if a {
                Some(Ordering::Less)
            } else {
                Some(Ordering::Greater)
            },
            (Value::Finite { .. }, Value::Infinite { neg: b }) => if b {
                Some(Ordering::Greater)
            } else {
                Some(Ordering::Less)
            },
            (Value::Finite { .. }, Value::Finite { .. }) => {
                let l = self.snum() * other.sden();
                let r = other.snum() * self.sden();
                if l < r {
                    Some(Ordering::Less)
                } else if l == r {
                    Some(Ordering::Equal)
                } else {
                    Some(Ordering::Greater)
                }
            },
        }
    }

    /// Negation: flips the sign of every value but `NaN`.
    pub open spec fn spec_neg(self) -> Value {
        match self {
            Value::Finite { neg, num, den } => Value::Finite { neg: !neg, num, den },
            Value::Infinite { neg } => Value::Infinite { neg: !neg },
            Value::NaN => Value::NaN,
        }
    }

    /// Absolute value: clears the sign of every value but `NaN`.
    pub open spec fn spec_abs(self) -> Value {
        match self {
            Value::Finite { neg, num, den } => Value::Finite { neg: false, num, den },
            Value::Infinite { neg } => Value::Infinite { neg: false },
            Value::NaN => Value::NaN,
        }
    }

    /// Exact addition.  Opposite infinities and any `NaN` operand yield
    /// `NaN`; a zero sum is negative only when both operands are negative.
    pub open spec fn spec_add(a: Value, b: Value) -> Value {
        match (a, b) {
            (Value::NaN, _) => Value::NaN,
            (_, Value::NaN) => Value::NaN,
            (Value::Infinite { neg: x }, Value::Infinite { neg: y }) => if x == y {
                Value::Infinite { neg: x }
            } else {
                Value::NaN
            },
            (Value::Infinite { neg: x }, Value::Finite { .. }) => Value::Infinite { neg: x },
            (Value::Finite { .. }, Value::Infinite { neg: y }) => Value::Infinite { neg: y },
            (Value::Finite { neg: an, .. }, Value::Finite { neg: bn, .. }) => {
                let n = a.snum() * b.sden() + b.snum() * a.sden();
                let d = a.sden() * b.sden();
                if n == 0 {
                    Value::Finite { neg: an && bn, num: 0, den: 1 }
                } else {
                    Value::rat_make(n < 0, (if n < 0 { -n } else { n }) as nat, d as nat)
                }
            },
        }
    }

    /// Exact subtraction, defined as addition of the negation.
    pub open spec fn spec_sub(a: Value, b: Value) -> Value {
        Value::spec_add(a, b.spec_neg())
    }

    /// Exact multiplication.  Zero times an infinity and any `NaN` operand
    /// yield `NaN`; signs multiply.
    pub open spec fn spec_mul(a: Value, b: Value) -> Value {
        match (a, b) {
            (Value::NaN, _) => Value::NaN,
            (_, Value::NaN) => Value::NaN,
            (Value::Infinite { neg: x }, Value::Infinite { neg: y }) => Value::Infinite {
                neg: x != y,
            },
            (Value::Infinite { neg: x }, Value::Finite { neg: y, num, .. }) => if num == 0 {
                Value::NaN
            } else {
                Value::Infinite { neg: x != y }
            },
            (Value::Finite { neg: x, num, .. }, Value::Infinite { neg: y }) => if num == 0 {
                Value::NaN
            } else {
                Value::Infinite { neg: x != y }
            },
            (
                Value::Finite { neg: x, num: n1, den: d1 },
                Value::Finite { neg: y, num: n2, den: d2 },
            ) => Value::rat_make(x != y, (n1 * n2) as nat, (d1 * d2) as nat),
        }
    }

    /// Exact division.  A nonzero value over zero is a signed infinity,
    /// zero over zero is `NaN`, and a finite value over an infinity is a
    /// signed zero; signs multiply.
    pub open spec fn spec_div(a: Value, b: Value) -> Value {
        match (a, b) {
            (Value::NaN, _) => Value::NaN,
            (_, Value::NaN) => Value::NaN,
            (Value::Infinite { .. }, Value::Infinite { .. }) => Value::NaN,
            (Value::Infinite { neg: x }, Value::Finite { neg: y, .. }) => Value::Infinite {
                neg: x != y,
            },
            (Value::Finite { neg: x, .. }, Value::Infinite { neg: y }) => Value::Finite {
                neg: x != y,
                num: 0,
                den: 1,
            },
            (
                Value::Finite { neg: x, num: n1, den: d1 },
                Value::Finite { neg: y, num: n2, den: d2 },
            ) => if n2 == 0 {
                if n1 == 0 {
                    Value::NaN
                } else {
                    Value::Infinite { neg: x != y }
                }
            } else {
                Value::rat_make(x != y, (n1 * d2) as nat, (d1 * n2) as nat)
            },
        }
    }

    /// The finite value of a machine integer.
    pub open spec fn spec_from_int(i: int) -> Value {
        Value::Finite {
            neg: i < 0,
            num: (if i < 0 {
                -i
            } else {
                i
            }) as u64,
            den: 1,
        }
    }

    /// The value of the fraction `n / d`, with the floating-point reading
    /// of a zero denominator.
    pub open spec fn spec_ratio(n: int, d: int) -> Value {
        let neg = (n < 0) != (d < 0);
        let nm = (if n < 0 {
            -n
        } else {
            n
        }) as nat;
        let dm = (if d < 0 {
            -d
        } else {
            d
        }) as nat;
        if d == 0 {
            if n == 0 {
                Value::NaN
            } else {
                Value::Infinite { neg }
            }
        } else {
            Value::rat_make(neg, nm, dm)
        }
    }

    /// The value of the decimal `m * 10^(-e)`.
    pub open spec fn spec_decimal(m: int, e: nat) -> Value {
        Value::rat_make(
            m < 0,
            (if m < 0 {
                -m
            } else {
                m
            }) as nat,
            pow10(e),
        )
    }

    /// Builds the finite value `(-1)^neg * n / d` in lowest terms,
    /// yielding `NaN` when the lowest terms exceed the magnitude bound.
    fn make(neg: bool, n: u128, d: u128) -> (v: Value)
        requires
            d >= 1,
        ensures
            v == Value::rat_make(neg, n as nat, d as nat),
            v.wf(),
    {
        proof {
            lemma_rat_make_wf(neg, n as nat, d as nat);
            lemma_gcd_pos(n as nat, d as nat);
            lemma_gcd_divides(n as nat, d as nat);
            lemma_div_exact(n as nat, gcd(n as nat, d as nat));
            lemma_div_exact(d as nat, gcd(n as nat, d as nat));
        }
        let g = gcd_u128(n, d);
        let n2 = n / g;
        let d2 = d / g;
        if n2 <= Value::MAX_MAG as u128 && d2 <= Value::MAX_MAG as u128 {
            Value::Finite { neg, num: n2 as u64, den: d2 as u64 }
        } else {
            Value::NaN
        }
    }

    /// The value zero with the given sign.
    pub fn zero(neg: bool) -> (v: Value)
        ensures
            v == (Value::Finite { neg, num: 0u64, den: 1u64 }),
            v.wf(),
    {
        proof {
            lemma_gcd_one(0);
        }
        Value::Finite { neg, num: 0, den: 1 }
    }

    /// The value of a machine integer.
    pub fn from_int(i: i64) -> (v: Value)
        ensures
            v == Value::spec_from_int(i as int),
            v.wf(),
    {
        let m: u64 = mag_i64(i);
        proof {
            lemma_gcd_one(m as nat);
        }
        Value::Finite { neg: i < 0, num: m, den: 1 }
    }

    /// The value of the fraction `n / d`.  A zero denominator follows the
    /// floating-point reading: a signed infinity, or `NaN` for zero over
    /// zero.
    pub fn ratio(n: i64, d: i64) -> (v: Value)
        ensures
            v == Value::spec_ratio(n as int, d as int),
            v.wf(),
    {
        let neg = (n < 0) != (d < 0);
        let nm: u64 = mag_i64(n);
        let dm: u64 = mag_i64(d);
        if d == 0 {
            if n == 0 {
                Value::NaN
            } else {
                Value::Infinite { neg }
            }
        } else {
            Value::make(neg, nm as u128, dm as u128)
        }
    }

    /// The value of the decimal `m * 10^(-e)`: `decimal(1035, 1)` is the
    /// exact `103.5`.  A decimal too fine for the magnitude bound is `NaN`.
    pub fn decimal(m: i64, e: u32) -> (v: Value)
        ensures
            v == Value::spec_decimal(m as int, e as nat),
            v.wf(),
    {
        let mm: u64 = mag_i64(m);
        if e <= 38 {
            let p: u128 = pow10_u128(e);
            proof {
                lemma_pow10_pos(e as nat);
            }
            Value::make(m < 0, mm as u128, p)
        } else {
            proof {
                lemma_decimal_too_fine(m < 0, mm as nat, e as nat);
                lemma_pow10_pos(e as nat);
                lemma_rat_make_wf(m < 0, mm as nat, pow10(e as nat));
            }
            if m == 0 {
                Value::Finite { neg: false, num: 0, den: 1 }
            } else {
                Value::NaN
            }
        }
    }

    /// Not-a-number.
    pub fn nan() -> (v: Value)
        ensures
            v == Value::NaN,
    {
        Value::NaN
    }

    /// Positive infinity.
    pub fn infinity() -> (v: Value)
        ensures
            v == (Value::Infinite { neg: false }),
    {
        Value::Infinite { neg: false }
    }

    /// Negative infinity.
    pub fn neg_infinity() -> (v: Value)
        ensures
            v == (Value::Infinite { neg: true }),
    {
        Value::Infinite { neg: true }
    }

    /// Whether this value is `NaN`.
    #[verifier::when_used_as_spec(spec_is_nan)]
    pub fn is_nan(self) -> (r: bool)
        ensures
            r == self.spec_is_nan(),
    {
        matches!(self, Value::NaN)
    }

    /// Whether this value is a signed infinity.
    #[verifier::when_used_as_spec(spec_is_infinite)]
    pub fn is_infinite(self) -> (r: bool)
        ensures
            r == self.spec_is_infinite(),
    {
        matches!(self, Value::Infinite { .. })
    }

    /// Whether this value is finite.
    #[verifier::when_used_as_spec(spec_is_finite)]
    pub fn is_finite(self) -> (r: bool)
        ensures
            r == self.spec_is_finite(),
    {
        matches!(self, Value::Finite { .. })
    }

    /// Whether the sign bit is clear; `NaN` reads as positive.
    pub fn is_sign_positive(self) -> (r: bool)
        ensures
            r == !self.spec_sign_neg(),
    {
        match self {
            Value::Finite { neg, .. } => !neg,
            Value::Infinite { neg } => !neg,
            Value::NaN => true,
        }
    }

    /// Whether the sign bit is set; `NaN` reads as positive.
    pub fn is_sign_negative(self) -> (r: bool)
        ensures
            r == self.spec_sign_neg(),
    {
        match self {
            Value::Finite { neg, .. } => neg,
            Value::Infinite { neg } => neg,
            Value::NaN => false,
        }
    }

    /// Absolute value.
    #[verifier::when_used_as_spec(spec_abs)]
    pub fn abs(self) -> (r: Value)
        ensures
            r == self.spec_abs(),
    {
        match self {
            Value::Finite { neg: _, num, den } => Value::Finite { neg: false, num, den },
            Value::Infinite { neg: _ } => Value::Infinite { neg: false },
            Value::NaN => Value::NaN,
        }
    }
}

/// Powers of ten.
pub open spec fn pow10(e: nat) -> nat
    decreases e,
{
    if e == 0 {
        1
    } else {
        10 * pow10((e - 1) as nat)
    }
}

/// A fraction in lowest terms is well-formed whenever it is representable;
/// the `NaN` fallback is well-formed trivially.
pub broadcast proof fn lemma_rat_make_wf(neg: bool, n: nat, d: nat)
    requires
        d >= 1,
    ensures
        (#[trigger] Value::rat_make(neg, n, d)).wf(),
{
    let g = gcd(n, d);
    lemma_gcd_pos(n, d);
    lemma_gcd_divides(n, d);
    lemma_gcd_reduced(n, d);
    lemma_div_exact(d, g);
    assert(d / g >= 1) by (nonlinear_arith)
        requires
            (d / g) * g == d,
            d >= 1,
            g >= 1,
    ;
}



impl Value {
    /// Magnitude of the numerator of a finite value.
    pub open spec fn fnum(self) -> nat {
        match self {
            Value::Finite { num, .. } => num as nat,
            _ => 0,
        }
    }

    /// Magnitude of the denominator of a finite value.
    pub open spec fn fden(self) -> nat {
        match self {
            Value::Finite { den, .. } => den as nat,
            _ => 1,
        }
    }
}

/// Signed cross products of two finite values, written over magnitudes.
proof fn lemma_cross(a: Value, b: Value)
    requires
        a is Finite,
        b is Finite,
    ensures
        a.snum() * b.sden() == if a.spec_sign_neg() {
            -((a.fnum() * b.fden()) as int)
        } else {
            (a.fnum() * b.fden()) as int
        },
        a.sden() * b.sden() == (a.fden() * b.fden()) as int,
{
    assert(a.snum() * b.sden() == if a.spec_sign_neg() {
        -((a.fnum() * b.fden()) as int)
    } else {
        (a.fnum() * b.fden()) as int
    }) by (nonlinear_arith)
        requires
            a is Finite,
            b is Finite,
            a.snum() == if a.spec_sign_neg() {
                -(a.fnum() as int)
            } else {
                a.fnum() as int
            },
            b.sden() == b.fden() as int,
    ;
}

/// A product of bounded factors is bounded by the product of the bounds.
proof fn lemma_mul_le(a: nat, b: nat, ab: nat, bb: nat)
    requires
        a <= ab,
        b <= bb,
    ensures
        a * b <= ab * bb,
{
    assert(a * b <= ab * bb) by (nonlinear_arith)
        requires
            a <= ab,
            b <= bb,
    ;
}

/// A product of positive factors is positive.
proof fn lemma_mul_pos(a: nat, b: nat)
    requires
        a >= 1,
        b >= 1,
    ensures
        a * b >= 1,
{
    assert(a * b >= 1) by (nonlinear_arith)
        requires
            a >= 1,
            b >= 1,
    ;
}

/// A zero numerator reduces to the zero value whatever the denominator.
proof fn lemma_rat_make_zero(neg: bool, d: nat)
    requires
        d >= 1,
    ensures
        Value::rat_make(neg, 0, d) == (Value::Finite { neg, num: 0u64, den: 1u64 }),
{
    assert(gcd(0, d) == gcd(d, 0nat % d));
    assert(0nat % d == 0);
    assert(gcd(d, 0nat) == d);
    assert(0nat / d == 0);
    assert(d / d == 1);
}

/// Exact sum of two well-formed values.
fn add_values(a: Value, b: Value) -> (r: Value)
    requires
        a.wf(),
        b.wf(),
    ensures
        r == Value::spec_add(a, b),
        r.wf(),
{
    match (a, b) {
        (Value::NaN, _) => Value::NaN,
        (_, Value::NaN) => Value::NaN,
        (Value::Infinite { neg: x }, Value::Infinite { neg: y }) => {
            if x == y {
                Value::Infinite { neg: x }
            } else {
                Value::NaN
            }
        },
        (Value::Infinite { neg: x }, Value::Finite { .. }) => Value::Infinite { neg: x },
        (Value::Finite { .. }, Value::Infinite { neg: y }) => Value::Infinite { neg: y },
        (
            Value::Finite { neg: an, num: n1, den: d1 },
            Value::Finite { neg: bn, num: n2, den: d2 },
        ) => {
            proof {
                lemma_cross(a, b);
                lemma_cross(b, a);
                lemma_mul_le(n1 as nat, d2 as nat, Value::MAX_MAG as nat, Value::MAX_MAG as nat);
                lemma_mul_le(n2 as nat, d1 as nat, Value::MAX_MAG as nat, Value::MAX_MAG as nat);
                lemma_mul_le(d1 as nat, d2 as nat, Value::MAX_MAG as nat, Value::MAX_MAG as nat);
                lemma_mul_pos(d1 as nat, d2 as nat);
            }
            let m1: u128 = (n1 as u128) * (d2 as u128);
            let m2: u128 = (n2 as u128) * (d1 as u128);
            let d: u128 = (d1 as u128) * (d2 as u128);
            if an == bn {
                if m1 + m2 == 0 {
                    proof {
                        lemma_rat_make_zero(an && bn, d as nat);
                    }
                    Value::make(an && bn, 0, d)
                } else {
                    Value::make(an, m1 + m2, d)
                }
            } else if m1 > m2 {
                Value::make(an, m1 - m2, d)
            } else if m2 > m1 {
                Value::make(bn, m2 - m1, d)
            } else {
                proof {
                    lemma_rat_make_zero(false, d as nat);
                }
                Value::make(an && bn, 0, d)
            }
        },
    }
}

/// Exact product of two well-formed values.
fn mul_values(a: Value, b: Value) -> (r: Value)
    requires
        a.wf(),
        b.wf(),
    ensures
        r == Value::spec_mul(a, b),
        r.wf(),
{
    match (a, b) {
        (Value::NaN, _) => Value::NaN,
        (_, Value::NaN) => Value::NaN,
        (Value::Infinite { neg: x }, Value::Infinite { neg: y }) => Value::Infinite {
            neg: x != y,
        },
        (Value::Infinite { neg: x }, Value::Finite { neg: y, num, .. }) => {
            if num == 0 {
                Value::NaN
            } else {
                Value::Infinite { neg: x != y }
            }
        },
        (Value::Finite { neg: x, num, .. }, Value::Infinite { neg: y }) => {
            if num == 0 {
                Value::NaN
            } else {
                Value::Infinite { neg: x != y }
            }
        },
        (
            Value::Finite { neg: x, num: n1, den: d1 },
            Value::Finite { neg: y, num: n2, den: d2 },
        ) => {
            proof {
                lemma_mul_le(n1 as nat, n2 as nat, Value::MAX_MAG as nat, Value::MAX_MAG as nat);
                lemma_mul_le(d1 as nat, d2 as nat, Value::MAX_MAG as nat, Value::MAX_MAG as nat);
                lemma_mul_pos(d1 as nat, d2 as nat);
            }
            Value::make(x != y, (n1 as u128) * (n2 as u128), (d1 as u128) * (d2 as u128))
        },
    }
}

/// Exact quotient of two well-formed values.
fn div_values(a: Value, b: Value) -> (r: Value)
    requires
        a.wf(),
        b.wf(),
    ensures
        r == Value::spec_div(a, b),
        r.wf(),
{
    match (a, b) {
        (Value::NaN, _) => Value::NaN,
        (_, Value::NaN) => Value::NaN,
        (Value::Infinite { .. }, Value::Infinite { .. }) => Value::NaN,
        (Value::Infinite { neg: x }, Value::Finite { neg: y, .. }) => Value::Infinite {
            neg: x != y,
        },
        (Value::Finite { neg: x, .. }, Value::Infinite { neg: y }) => {
            proof {
                lemma_gcd_one(0);
            }
            Value::Finite { neg: x != y, num: 0, den: 1 }
        },
        (
            Value::Finite { neg: x, num: n1, den: d1 },
            Value::Finite { neg: y, num: n2, den: d2 },
        ) => {
            if n2 == 0 {
                if n1 == 0 {
                    Value::NaN
                } else {
                    Value::Infinite { neg: x != y }
                }
            } else {
                proof {
                    lemma_mul_le(
                        n1 as nat,
                        d2 as nat,
                        Value::MAX_MAG as nat,
                        Value::MAX_MAG as nat,
                    );
                    lemma_mul_le(
                        d1 as nat,
                        n2 as nat,
                        Value::MAX_MAG as nat,
                        Value::MAX_MAG as nat,
                    );
                    lemma_mul_pos(d1 as nat, n2 as nat);
                }
                Value::make(x != y, (n1 as u128) * (d2 as u128), (d1 as u128) * (n2 as u128))
            }
        },
    }
}

impl core::ops::Neg for Value {
    type Output = Value;

    /// Negation; total, and exact on every value.
    fn neg(self) -> (r: Value) {
        match self {
            Value::Finite { neg, num, den } => Value::Finite { neg: !neg, num, den },
            Value::Infinite { neg } => Value::Infinite { neg: !neg },
            Value::NaN => Value::NaN,
        }
    }
}

impl vstd::std_specs::ops::NegSpecImpl for Value {
    open spec fn obeys_neg_spec() -> bool {
        true
    }

    open spec fn neg_req(self) -> bool {
        true
    }

    open spec fn neg_spec(self) -> Value {
        self.spec_neg()
    }
}

impl core::ops::Add for Value {
    type Output = Value;

    /// Exact addition of well-formed values.
    fn add(self, rhs: Value) -> (r: Value) {
        add_values(self, rhs)
    }
}

impl vstd::std_specs::ops::AddSpecImpl for Value {
    open spec fn obeys_add_spec() -> bool {
        true
    }

    open spec fn add_req(self, rhs: Value) -> bool {
        self.wf() && rhs.wf()
    }

    open spec fn add_spec(self, rhs: Value) -> Value {
        Value::spec_add(self, rhs)
    }
}

impl core::ops::Sub for Value {
    type Output = Value;

    /// Exact subtraction of well-formed values, as addition of the
    /// negation.
    fn sub(self, rhs: Value) -> (r: Value) {
        add_values(self, rhs.neg())
    }
}

impl vstd::std_specs::ops::SubSpecImpl for Value {
    open spec fn obeys_sub_spec() -> bool {
        true
    }

    open spec fn sub_req(self, rhs: Value) -> bool {
        self.wf() && rhs.wf()
    }

    open spec fn sub_spec(self, rhs: Value) -> Value {
        Value::spec_sub(self, rhs)
    }
}

impl core::ops::Mul for Value {
    type Output = Value;

    /// Exact multiplication of well-formed values.
    fn mul(self, rhs: Value) -> (r: Value) {
        mul_values(self, rhs)
    }
}

impl vstd::std_specs::ops::MulSpecImpl for Value {
    open spec fn obeys_mul_spec() -> bool {
        true
    }

    open spec fn mul_req(self, rhs: Value) -> bool {
        self.wf() && rhs.wf()
    }

    open spec fn mul_spec(self, rhs: Value) -> Value {
        Value::spec_mul(self, rhs)
    }
}

impl core::ops::Div for Value {
    type Output = Value;

    /// Exact division of well-formed values.
    fn div(self, rhs: Value) -> (r: Value) {
        div_values(self, rhs)
    }
}

impl vstd::std_specs::ops::DivSpecImpl for Value {
    open spec fn obeys_div_spec() -> bool {
        true
    }

    open spec fn div_req(self, rhs: Value) -> bool {
        self.wf() && rhs.wf()
    }

    open spec fn div_spec(self, rhs: Value) -> Value {
        Value::spec_div(self, rhs)
    }
}

impl PartialEq for Value {
    /// Equality in the floating-point sense; total on all values.
    fn eq(&self, other: &Value) -> (r: bool) {
        match (self, other) {
            (
                Value::Finite { neg: an, num: n1, den: d1 },
                Value::Finite { neg: bn, num: n2, den: d2 },
            ) => {
                proof {
                    lemma_cross(*self, *other);
                    lemma_cross(*other, *self);
                    lemma_mul_le(*n1 as nat, *d2 as nat, u64::MAX as nat, u64::MAX as nat);
                    lemma_mul_le(*n2 as nat, *d1 as nat, u64::MAX as nat, u64::MAX as nat);
                }
                let m1: u128 = (*n1 as u128) * (*d2 as u128);
                let m2: u128 = (*n2 as u128) * (*d1 as u128);
                proof {
                    assert(self.snum() * other.sden() == if *an {
                        -(m1 as int)
                    } else {
                        m1 as int
                    });
                    assert(other.snum() * self.sden() == if *bn {
                        -(m2 as int)
                    } else {
                        m2 as int
                    });
                }
                proof {
                    if *an == *bn {
                        assert(self.eq_val(*other) == (m1 == m2));
                    } else {
                        assert(self.eq_val(*other) == (m1 == 0 && m2 == 0));
                    }
                }
                if *an == *bn {
                    m1 == m2
                } else {
                    m1 == 0 && m2 == 0
                }
            },
            (Value::Infinite { neg: a }, Value::Infinite { neg: b }) => *a == *b,
            _ => false,
        }
    }
}

impl vstd::std_specs::cmp::PartialEqSpecImpl for Value {
    open spec fn obeys_eq_spec() -> bool {
        true
    }

    open spec fn eq_spec(&self, other: &Value) -> bool {
        self.eq_val(*other)
    }
}

impl PartialOrd for Value {
    /// Three-way comparison in the floating-point sense; total on all
    /// values, `None` exactly when one side is `NaN`.
    fn partial_cmp(&self, other: &Value) -> (r: Option<Ordering>) {
        match (self, other) {
            (Value::NaN, _) => None,
            (_, Value::NaN) => None,
            (Value::Infinite { neg: a }, Value::Infinite { neg: b }) => {
                if *a == *b {
                    Some(Ordering::Equal)
                } else if *a {
                    Some(Ordering::Less)
                } else {
                    Some(Ordering::Greater)
                }
            },
            (Value::Infinite { neg: a }, Value::Finite { .. }) => {
                if *a {
                    Some(Ordering::Less)
                } else {
                    Some(Ordering::Greater)
                }
            },
            (Value::Finite { .. }, Value::Infinite { neg: b }) => {
                if *b {
                    Some(Ordering::Greater)
                } else {
                    Some(Ordering::Less)
                }
            },
            (
                Value::Finite { neg: an, num: n1, den: d1 },
                Value::Finite { neg: bn, num: n2, den: d2 },
            ) => {
                proof {
                    lemma_cross(*self, *other);
                    lemma_cross(*other, *self);
                    lemma_mul_le(*n1 as nat, *d2 as nat, u64::MAX as nat, u64::MAX as nat);
                    lemma_mul_le(*n2 as nat, *d1 as nat, u64::MAX as nat, u64::MAX as nat);
                }
                let m1: u128 = (*n1 as u128) * (*d2 as u128);
                let m2: u128 = (*n2 as u128) * (*d1 as u128);
                proof {
                    assert(self.snum() * other.sden() == if *an {
                        -(m1 as int)
                    } else {
                        m1 as int
                    });
                    assert(other.snum() * self.sden() == if *bn {
                        -(m2 as int)
                    } else {
                        m2 as int
                    });
                }
                if !*an && !*bn {
                    if m1 < m2 {
                        Some(Ordering::Less)
                    } else if m1 == m2 {
                        Some(Ordering::Equal)
                    } else {
                        Some(Ordering::Greater)
                    }
                } else if *an && *bn {
                    if m2 < m1 {
                        Some(Ordering::Less)
                    } else if m1 == m2 {
                        Some(Ordering::Equal)
                    } else {
                        Some(Ordering::Greater)
                    }
                } else if *an {
                    if m1 == 0 && m2 == 0 {
                        Some(Ordering::Equal)
                    } else {
                        Some(Ordering::Less)
                    }
                } else {
                    if m1 == 0 && m2 == 0 {
                        Some(Ordering::Equal)
                    } else {
                        Some(Ordering::Greater)
                    }
                }
            },
        }
    }
}

impl vstd::std_specs::cmp::PartialOrdSpecImpl for Value {
    open spec fn obeys_partial_cmp_spec() -> bool {
        true
    }

    open spec fn partial_cmp_spec(&self, other: &Value) -> Option<Ordering> {
        self.cmp_val(*other)
    }
}

/// The sum of well-formed values is well-formed.
pub broadcast proof fn lemma_spec_add_wf(a: Value, b: Value)
    requires
        a.wf(),
        b.wf(),
    ensures
        (#[trigger] Value::spec_add(a, b)).wf(),
{
    if a is Finite && b is Finite {
        lemma_cross(a, b);
        lemma_cross(b, a);
        lemma_mul_pos(a.fden(), b.fden());
        let n = a.snum() * b.sden() + b.snum() * a.sden();
        if n != 0 {
            lemma_rat_make_wf(
                n < 0,
                (if n < 0 {
                    -n
                } else {
                    n
                }) as nat,
                (a.sden() * b.sden()) as nat,
            );
        } else {
            lemma_gcd_one(0);
        }
    }
}

/// The difference of well-formed values is well-formed.
pub broadcast proof fn lemma_spec_sub_wf(a: Value, b: Value)
    requires
        a.wf(),
        b.wf(),
    ensures
        (#[trigger] Value::spec_sub(a, b)).wf(),
{
    lemma_spec_add_wf(a, b.spec_neg());
}

/// The product of well-formed values is well-formed.
pub broadcast proof fn lemma_spec_mul_wf(a: Value, b: Value)
    requires
        a.wf(),
        b.wf(),
    ensures
        (#[trigger] Value::spec_mul(a, b)).wf(),
{
    if a is Finite && b is Finite {
        lemma_mul_pos(a.fden(), b.fden());
        lemma_rat_make_wf(
            a.spec_sign_neg() != b.spec_sign_neg(),
            a.fnum() * b.fnum(),
            a.fden() * b.fden(),
        );
    }
}

/// The quotient of well-formed values is well-formed.
pub broadcast proof fn lemma_spec_div_wf(a: Value, b: Value)
    requires
        a.wf(),
        b.wf(),
    ensures
        (#[trigger] Value::spec_div(a, b)).wf(),
{
    if a is Finite && b is Finite && b.fnum() != 0 {
        lemma_mul_pos(a.fden(), b.fnum());
        lemma_rat_make_wf(
            a.spec_sign_neg() != b.spec_sign_neg(),
            a.fnum() * b.fden(),
            a.fden() * b.fnum(),
        );
    } else {
        lemma_gcd_one(0);
    }
}

/// Negation and absolute value preserve well-formedness.
pub broadcast proof fn lemma_spec_neg_abs_wf(a: Value)
    requires
        a.wf(),
    ensures
        (#[trigger] a.spec_neg()).wf(),
        (#[trigger] a.spec_abs()).wf(),
{
}

/// The magnitude of a signed machine integer.
fn mag_i64(i: i64) -> (m: u64)
    ensures
        m as int == (if i < 0 {
            -(i as int)
        } else {
            i as int
        }),
{
    if i >= 0 {
        i as u64
    } else {
        (-(i as i128)) as u64
    }
}

/// `gcd(n, 1) == 1`: every integer over one is already in lowest terms.
proof fn lemma_gcd_one(n: nat)
    ensures
        gcd(n, 1) == 1,
{
    assert(gcd(n, 1) == gcd(1, n % 1));
    assert(n % 1 == 0);
    assert(gcd(1, 0) == 1);
}

/// Powers of ten are positive.
pub proof fn lemma_pow10_pos(e: nat)
    ensures
        pow10(e) >= 1,
    decreases e,
{
    if e > 0 {
        lemma_pow10_pos((e - 1) as nat);
    }
}

/// Powers of ten grow with the exponent.
proof fn lemma_pow10_le(a: nat, b: nat)
    requires
        a <= b,
    ensures
        pow10(a) <= pow10(b),
    decreases b,
{
    lemma_pow10_pos(a);
    if a < b {
        lemma_pow10_le(a, (b - 1) as nat);
    }
}

/// `10^38` written out, so machine arithmetic can stay below it.
proof fn lemma_pow10_38()
    ensures
        pow10(38) == 100000000000000000000000000000000000000,
{
    assert(pow10(0) == 1);
    assert(pow10(1) == 10);
    assert(pow10(2) == 100);
    assert(pow10(3) == 1000);
    assert(pow10(4) == 10000);
    assert(pow10(5) == 100000);
    assert(pow10(6) == 1000000);
    assert(pow10(7) == 10000000);
    assert(pow10(8) == 100000000);
    assert(pow10(9) == 1000000000);
    assert(pow10(10) == 10000000000);
    assert(pow10(11) == 100000000000);
    assert(pow10(12) == 1000000000000);
    assert(pow10(13) == 10000000000000);
    assert(pow10(14) == 100000000000000);
    assert(pow10(15) == 1000000000000000);
    assert(pow10(16) == 10000000000000000);
    assert(pow10(17) == 100000000000000000);
    assert(pow10(18) == 1000000000000000000);
    assert(pow10(19) == 10000000000000000000);
    assert(pow10(20) == 100000000000000000000);
    assert(pow10(21) == 1000000000000000000000);
    assert(pow10(22) == 10000000000000000000000);
    assert(pow10(23) == 100000000000000000000000);
    assert(pow10(24) == 1000000000000000000000000);
    assert(pow10(25) == 10000000000000000000000000);
    assert(pow10(26) == 100000000000000000000000000);
    assert(pow10(27) == 1000000000000000000000000000);
    assert(pow10(28) == 10000000000000000000000000000);
    assert(pow10(29) == 100000000000000000000000000000);
    assert(pow10(30) == 1000000000000000000000000000000);
    assert(pow10(31) == 10000000000000000000000000000000);
    assert(pow10(32) == 100000000000000000000000000000000);
    assert(pow10(33) == 1000000000000000000000000000000000);
    assert(pow10(34) == 10000000000000000000000000000000000);
    assert(pow10(35) == 100000000000000000000000000000000000);
    assert(pow10(36) == 1000000000000000000000000000000000000);
    assert(pow10(37) == 10000000000000000000000000000000000000);
    assert(pow10(38) == 100000000000000000000000000000000000000);
}

/// Computes `10^e` as a machine integer.
fn pow10_u128(e: u32) -> (p: u128)
    requires
        e <= 38,
    ensures
        p as nat == pow10(e as nat),
{
    let mut p: u128 = 1;
    let mut i: u32 = 0;
    while i < e
        invariant
            i <= e <= 38,
            p as nat == pow10(i as nat),
        decreases e - i,
    {
        proof {
            lemma_pow10_38();
            lemma_pow10_le(i as nat + 1, 38);
        }
        p = p * 10;
        i = i + 1;
    }
    p
}

/// A decimal finer than `10^(-38)` either is zero or reduces to a
/// denominator over the magnitude bound, so a nonzero one is `NaN`.
proof fn lemma_decimal_too_fine(neg: bool, m: nat, e: nat)
    requires
        e >= 39,
        m <= Value::MAX_MAG,
    ensures
        m == 0 ==> Value::rat_make(neg, m, pow10(e)) == (Value::Finite {
            neg,
            num: 0u64,
            den: 1u64,
        }),
        m >= 1 ==> Value::rat_make(neg, m, pow10(e)) == Value::NaN,
{
    let p = pow10(e);
    lemma_pow10_38();
    lemma_pow10_le(39, e);
    assert(pow10(39) == 10 * pow10(38));
    assert(p >= 1000000000000000000000000000000000000000);
    assert((Value::MAX_MAG as nat) * (Value::MAX_MAG as nat) < p);
    let g = gcd(m, p);
    lemma_pow10_pos(e);
    lemma_gcd_pos(m, p);
    lemma_gcd_divides(m, p);
    lemma_div_exact(p, g);
    if m == 0 {
        // The greatest common divisor of zero and `p` is `p` itself.
        assert(gcd(0, p) == gcd(p, 0nat % p));
        assert(0nat % p == 0);
        assert(gcd(p, 0nat) == p);
        assert(m / g == 0) by (nonlinear_arith)
            requires
                g >= 1,
                m == 0,
        ;
        assert(p / g == 1) by (nonlinear_arith)
            requires
                (p / g) * g == p,
                g == p,
                p >= 1,
        ;
    } else {
        crate::rational::lemma_divides_pos_bound(g, m);
        assert(p / g > Value::MAX_MAG) by (nonlinear_arith)
            requires
                (p / g) * g == p,
                g <= Value::MAX_MAG as nat,
                p > (Value::MAX_MAG as nat) * (Value::MAX_MAG as nat),
        ;
    }
}


/// The signed integer `(-1)^neg * n`.
pub open spec fn sg(neg: bool, n: nat) -> int {
    if neg {
        -(n as int)
    } else {
        n as int
    }
}

/// Value equality is reflexive on finite values.
pub proof fn lemma_eq_val_refl(v: Value)
    requires
        v is Finite,
    ensures
        v.eq_val(v),
{
}

/// Value equality is transitive on well-formed finite values.
pub proof fn lemma_eq_val_trans(a: Value, b: Value, c: Value)
    requires
        a.wf(),
        b.wf(),
        c.wf(),
        a is Finite,
        b is Finite,
        c is Finite,
        a.eq_val(b),
        b.eq_val(c),
    ensures
        a.eq_val(c),
{
    assert(a.snum() * c.sden() == c.snum() * a.sden()) by (nonlinear_arith)
        requires
            a.snum() * b.sden() == b.snum() * a.sden(),
            b.snum() * c.sden() == c.snum() * b.sden(),
            a.sden() >= 1,
            b.sden() >= 1,
            c.sden() >= 1,
    ;
}

/// A finite lowest-terms value represents its defining fraction.
proof fn lemma_rat_make_frac(neg: bool, n: nat, d: nat)
    requires
        d >= 1,
    ensures
        Value::rat_make(neg, n, d) is Finite ==> {
            let v = Value::rat_make(neg, n, d);
            &&& v.spec_sign_neg() == neg
            &&& v.fnum() * d == n * v.fden()
            &&& 1 <= v.fden()
            &&& (n == 0 <==> v.fnum() == 0)
        },
{
    let g = gcd(n, d);
    lemma_gcd_pos(n, d);
    lemma_gcd_divides(n, d);
    lemma_div_exact(n, g);
    lemma_div_exact(d, g);
    if Value::rat_make(neg, n, d) is Finite {
        assert((n / g) * d == n * (d / g) && d / g >= 1 && (n == 0 <==> n / g == 0))
            by (nonlinear_arith)
            requires
                (n / g) * g == n,
                (d / g) * g == d,
                g >= 1,
                d >= 1,
        ;
    }
}

/// A fraction already in bounded lowest terms is returned as it stands.
proof fn lemma_rat_make_of_reduced(neg: bool, n: nat, d: nat)
    requires
        1 <= d <= Value::MAX_MAG,
        n <= Value::MAX_MAG,
        gcd(n, d) == 1,
    ensures
        Value::rat_make(neg, n, d) == (Value::Finite { neg, num: n as u64, den: d as u64 }),
{
    assert(n / 1 == n && d / 1 == d);
}

/// Cross-equal fractions reduce to the same value.
proof fn lemma_rat_make_eq(neg: bool, n1: nat, d1: nat, n2: nat, d2: nat)
    requires
        d1 >= 1,
        d2 >= 1,
        n1 * d2 == n2 * d1,
    ensures
        Value::rat_make(neg, n1, d1) == Value::rat_make(neg, n2, d2),
{
    let g1 = gcd(n1, d1);
    let g2 = gcd(n2, d2);
    lemma_gcd_pos(n1, d1);
    lemma_gcd_pos(n2, d2);
    lemma_gcd_divides(n1, d1);
    lemma_gcd_divides(n2, d2);
    lemma_div_exact(n1, g1);
    lemma_div_exact(d1, g1);
    lemma_div_exact(n2, g2);
    lemma_div_exact(d2, g2);
    crate::rational::lemma_gcd_reduced(n1, d1);
    crate::rational::lemma_gcd_reduced(n2, d2);
    let a1 = n1 / g1;
    let b1 = d1 / g1;
    let a2 = n2 / g2;
    let b2 = d2 / g2;
    assert((a1 * b2) * (g1 * g2) == (a2 * b1) * (g1 * g2)) by (nonlinear_arith)
        requires
            a1 * g1 == n1,
            b1 * g1 == d1,
            a2 * g2 == n2,
            b2 * g2 == d2,
            n1 * d2 == n2 * d1,
    ;
    assert(a1 * b2 == a2 * b1) by (nonlinear_arith)
        requires
            (a1 * b2) * (g1 * g2) == (a2 * b1) * (g1 * g2),
            g1 >= 1,
            g2 >= 1,
    ;
    assert(b1 >= 1 && b2 >= 1) by (nonlinear_arith)
        requires
            b1 * g1 == d1,
            b2 * g2 == d2,
            d1 >= 1,
            d2 >= 1,
            g1 >= 1,
            g2 >= 1,
    ;
    crate::rational::lemma_reduced_unique(a1, b1, a2, b2);
}

/// A fraction cross-equal to a well-formed finite value reduces to a
/// finite value equal to it.
proof fn lemma_rat_make_recover(v: Value, neg: bool, n: nat, d: nat)
    requires
        v.wf(),
        v is Finite,
        d >= 1,
        sg(neg, n) * v.sden() == v.snum() * d,
    ensures
        Value::rat_make(neg, n, d) is Finite,
        Value::rat_make(neg, n, d).eq_val(v),
{
    assert(n * v.fden() == v.fnum() * d && (n >= 1 && v.fnum() >= 1 ==> neg == v.spec_sign_neg())
        && (n == 0 <==> v.fnum() == 0)) by (nonlinear_arith)
        requires
            sg(neg, n) * v.sden() == v.snum() * d,
            sg(neg, n) == if neg {
                -(n as int)
            } else {
                n as int
            },
            v.snum() == if v.spec_sign_neg() {
                -(v.fnum() as int)
            } else {
                v.fnum() as int
            },
            v.sden() == v.fden() as int,
            v.fden() >= 1,
            d >= 1,
    ;
    lemma_rat_make_eq(neg, n, d, v.fnum(), v.fden());
    lemma_rat_make_of_reduced(neg, v.fnum(), v.fden());
    let r = Value::rat_make(neg, n, d);
    assert(r.snum() * v.sden() == v.snum() * r.sden()) by (nonlinear_arith)
        requires
            r is Finite,
            r.fnum() == v.fnum(),
            r.sden() == v.sden(),
            (r.fnum() >= 1 ==> r.spec_sign_neg() == v.spec_sign_neg()),
            (r.fnum() == 0 ==> v.fnum() == 0),
            r.snum() == if r.spec_sign_neg() {
                -(r.fnum() as int)
            } else {
                r.fnum() as int
            },
            v.snum() == if v.spec_sign_neg() {
                -(v.fnum() as int)
            } else {
                v.fnum() as int
            },
    ;
}

/// A finite sum represents the exact rational sum of its operands.
proof fn lemma_add_frac(a: Value, b: Value)
    requires
        a.wf(),
        b.wf(),
        a is Finite,
        b is Finite,
        Value::spec_add(a, b) is Finite,
    ensures
        ({
            let s = Value::spec_add(a, b);
            s.snum() * (a.sden() * b.sden()) == (a.snum() * b.sden() + b.snum() * a.sden())
                * s.sden()
        }),
{
    let n = a.snum() * b.sden() + b.snum() * a.sden();
    let d = a.sden() * b.sden();
    let s = Value::spec_add(a, b);
    assert(d >= 1) by (nonlinear_arith)
        requires
            a.sden() >= 1,
            b.sden() >= 1,
            d == a.sden() * b.sden(),
    ;
    if n == 0 {
        assert(s.snum() == 0 && s.sden() == 1);
    } else {
        let nm = (if n < 0 {
            -n
        } else {
            n
        }) as nat;
        lemma_rat_make_frac(n < 0, nm, d as nat);
        assert(s.snum() * d == n * s.sden()) by (nonlinear_arith)
            requires
                s is Finite,
                s.fnum() * (d as nat) == nm * s.fden(),
                s.fden() >= 1,
                (nm == 0 <==> s.fnum() == 0),
                s.spec_sign_neg() == (n < 0),
                nm == (if n < 0 {
                    -n
                } else {
                    n
                }) as nat,
                n != 0,
                d >= 1,
                s.snum() == sg(s.spec_sign_neg(), s.fnum()),
                s.sden() == s.fden() as int,
    ;
    }
}

/// A finite product represents the exact rational product of its
/// operands.
proof fn lemma_mul_frac(a: Value, b: Value)
    requires
        a.wf(),
        b.wf(),
        a is Finite,
        b is Finite,
        Value::spec_mul(a, b) is Finite,
    ensures
        ({
            let s = Value::spec_mul(a, b);
            s.snum() * (a.sden() * b.sden()) == (a.snum() * b.snum()) * s.sden()
        }),
{
    let s = Value::spec_mul(a, b);
    let nm = a.fnum() * b.fnum();
    let dm = a.fden() * b.fden();
    assert(dm >= 1) by (nonlinear_arith)
        requires
            a.fden() >= 1,
            b.fden() >= 1,
            dm == a.fden() * b.fden(),
    ;
    lemma_rat_make_frac(a.spec_sign_neg() != b.spec_sign_neg(), nm, dm);
    assert(s.snum() * (a.sden() * b.sden()) == (a.snum() * b.snum()) * s.sden())
        by (nonlinear_arith)
        requires
            s is Finite,
            s.fnum() * dm == nm * s.fden(),
            s.fden() >= 1,
            s.spec_sign_neg() == (a.spec_sign_neg() != b.spec_sign_neg()),
            (nm == 0 <==> s.fnum() == 0),
            nm == a.fnum() * b.fnum(),
            dm == a.fden() * b.fden(),
            a.snum() == sg(a.spec_sign_neg(), a.fnum()),
            b.snum() == sg(b.spec_sign_neg(), b.fnum()),
            s.snum() == sg(s.spec_sign_neg(), s.fnum()),
            a.sden() == a.fden() as int,
            b.sden() == b.fden() as int,
            s.sden() == s.fden() as int,
    ;
}

/// A finite quotient represents the exact rational quotient of its
/// operands.
proof fn lemma_div_frac(a: Value, b: Value)
    requires
        a.wf(),
        b.wf(),
        a is Finite,
        b is Finite,
        b.fnum() != 0,
        Value::spec_div(a, b) is Finite,
    ensures
        ({
            let s = Value::spec_div(a, b);
            s.snum() * (a.sden() * b.snum()) == (a.snum() * b.sden()) * s.sden()
        }),
{
    let s = Value::spec_div(a, b);
    let nm = a.fnum() * b.fden();
    let dm = a.fden() * b.fnum();
    assert(dm >= 1) by (nonlinear_arith)
        requires
            a.fden() >= 1,
            b.fnum() >= 1,
            dm == a.fden() * b.fnum(),
    ;
    lemma_rat_make_frac(a.spec_sign_neg() != b.spec_sign_neg(), nm, dm);
    assert(s.snum() * (a.sden() * b.snum()) == (a.snum() * b.sden()) * s.sden())
        by (nonlinear_arith)
        requires
            s is Finite,
            s.fnum() * dm == nm * s.fden(),
            s.fden() >= 1,
            s.spec_sign_neg() == (a.spec_sign_neg() != b.spec_sign_neg()),
            (nm == 0 <==> s.fnum() == 0),
            nm == a.fnum() * b.fden(),
            dm == a.fden() * b.fnum(),
            b.fnum() >= 1,
            a.snum() == sg(a.spec_sign_neg(), a.fnum()),
            b.snum() == sg(b.spec_sign_neg(), b.fnum()),
            s.snum() == sg(s.spec_sign_neg(), s.fnum()),
            a.sden() == a.fden() as int,
            b.sden() == b.fden() as int,
            s.sden() == s.fden() as int,
    ;
}


/// Multiplying by one is exact and changes nothing.
pub proof fn lemma_mul_one(x: Value)
    requires
        x.wf(),
        x is Finite,
    ensures
        Value::spec_mul(x, Value::spec_from_int(1)) == x,
{
    assert(x.fnum() * 1nat == x.fnum());
    assert(x.fden() * 1nat == x.fden());
    lemma_rat_make_of_reduced(x.spec_sign_neg(), x.fnum(), x.fden());
}

/// Adding zero is exact up to the sign of a zero sum.
pub proof fn lemma_add_zero(x: Value)
    requires
        x.wf(),
        x is Finite,
    ensures
        Value::spec_add(x, Value::spec_from_int(0)) is Finite,
        Value::spec_add(x, Value::spec_from_int(0)).eq_val(x),
{
    let z = Value::spec_from_int(0);
    let n = x.snum() * z.sden() + z.snum() * x.sden();
    assert(z.sden() == 1 && z.snum() == 0);
    assert(n == x.snum()) by (nonlinear_arith)
        requires
            n == x.snum() * z.sden() + z.snum() * x.sden(),
            z.sden() == 1,
            z.snum() == 0,
    ;
    if n == 0 {
    } else {
        let nm = (if n < 0 {
            -n
        } else {
            n
        }) as nat;
        assert(nm == x.fnum());
        assert((x.sden() * z.sden()) as nat == x.fden());
        assert((n < 0) == x.spec_sign_neg());
        lemma_rat_make_of_reduced(x.spec_sign_neg(), x.fnum(), x.fden());
        lemma_eq_val_refl(x);
    }
}

/// Adding a value and subtracting it again is exact: `(x + k) - k`
/// equals `x` as a value whenever the sum is representable.
pub proof fn lemma_add_sub_exact(x: Value, k: Value)
    requires
        x.wf(),
        k.wf(),
        x is Finite,
        k is Finite,
        Value::spec_add(x, k) is Finite,
    ensures
        Value::spec_sub(Value::spec_add(x, k), k) is Finite,
        Value::spec_sub(Value::spec_add(x, k), k).eq_val(x),
{
    let y = Value::spec_add(x, k);
    lemma_spec_add_wf(x, k);
    lemma_add_frac(x, k);
    let kn = k.spec_neg();
    let nz = y.snum() * kn.sden() + kn.snum() * y.sden();
    let dz = y.sden() * kn.sden();
    assert(kn.snum() == -k.snum() && kn.sden() == k.sden());
    assert(nz * x.sden() == x.snum() * dz) by (nonlinear_arith)
        requires
            y.snum() * (x.sden() * k.sden()) == (x.snum() * k.sden() + k.snum() * x.sden())
                * y.sden(),
            nz == y.snum() * k.sden() + (-k.snum()) * y.sden(),
            dz == y.sden() * k.sden(),
    ;
    assert(dz >= 1) by (nonlinear_arith)
        requires
            y.sden() >= 1,
            k.sden() >= 1,
            dz == y.sden() * k.sden(),
    ;
    if nz == 0 {
        assert(x.snum() == 0) by (nonlinear_arith)
            requires
                nz * x.sden() == x.snum() * dz,
                nz == 0,
                dz >= 1,
        ;
    } else {
        let nm = (if nz < 0 {
            -nz
        } else {
            nz
        }) as nat;
        assert(sg(nz < 0, nm) == nz);
        lemma_rat_make_recover(x, nz < 0, nm, dz as nat);
    }
}

/// Subtracting a value and adding it again is exact: `(x - k) + k`
/// equals `x` as a value whenever the difference is representable.
pub proof fn lemma_sub_add_exact(x: Value, k: Value)
    requires
        x.wf(),
        k.wf(),
        x is Finite,
        k is Finite,
        Value::spec_sub(x, k) is Finite,
    ensures
        Value::spec_add(Value::spec_sub(x, k), k) is Finite,
        Value::spec_add(Value::spec_sub(x, k), k).eq_val(x),
{
    let kn = k.spec_neg();
    let y = Value::spec_sub(x, k);
    lemma_spec_sub_wf(x, k);
    lemma_add_frac(x, kn);
    assert(kn.snum() == -k.snum() && kn.sden() == k.sden());
    let nz = y.snum() * k.sden() + k.snum() * y.sden();
    let dz = y.sden() * k.sden();
    assert(nz * x.sden() == x.snum() * dz) by (nonlinear_arith)
        requires
            y.snum() * (x.sden() * k.sden()) == (x.snum() * k.sden() + (-k.snum()) * x.sden())
                * y.sden(),
            nz == y.snum() * k.sden() + k.snum() * y.sden(),
            dz == y.sden() * k.sden(),
    ;
    assert(dz >= 1) by (nonlinear_arith)
        requires
            y.sden() >= 1,
            k.sden() >= 1,
            dz == y.sden() * k.sden(),
    ;
    if nz == 0 {
        assert(x.snum() == 0) by (nonlinear_arith)
            requires
                nz * x.sden() == x.snum() * dz,
                nz == 0,
                dz >= 1,
        ;
    } else {
        let nm = (if nz < 0 {
            -nz
        } else {
            nz
        }) as nat;
        assert(sg(nz < 0, nm) == nz);
        lemma_rat_make_recover(x, nz < 0, nm, dz as nat);
    }
}

/// Multiplying by a nonzero value and dividing by it again is exact:
/// `(x * c) / c` equals `x` as a value whenever the product is
/// representable.
pub proof fn lemma_mul_div_exact(x: Value, c: Value)
    requires
        x.wf(),
        c.wf(),
        x is Finite,
        c is Finite,
        c.fnum() != 0,
        Value::spec_mul(x, c) is Finite,
    ensures
        Value::spec_div(Value::spec_mul(x, c), c) is Finite,
        Value::spec_div(Value::spec_mul(x, c), c).eq_val(x),
{
    let m = Value::spec_mul(x, c);
    lemma_spec_mul_wf(x, c);
    lemma_mul_frac(x, c);
    let zneg = m.spec_sign_neg() != c.spec_sign_neg();
    let znm = m.fnum() * c.fden();
    let zdm = m.fden() * c.fnum();
    assert(zdm >= 1) by (nonlinear_arith)
        requires
            m.fden() >= 1,
            c.fnum() >= 1,
            zdm == m.fden() * c.fnum(),
    ;
    assert(sg(zneg, znm) * x.sden() == x.snum() * zdm) by (nonlinear_arith)
        requires
            m.snum() * (x.sden() * c.sden()) == (x.snum() * c.snum()) * m.sden(),
            znm == m.fnum() * c.fden(),
            zdm == m.fden() * c.fnum(),
            m.snum() == sg(m.spec_sign_neg(), m.fnum()),
            c.snum() == sg(c.spec_sign_neg(), c.fnum()),
            c.sden() == c.fden() as int,
            m.sden() == m.fden() as int,
            zneg == (m.spec_sign_neg() != c.spec_sign_neg()),
            sg(zneg, znm) == if zneg {
                -(znm as int)
            } else {
                znm as int
            },
            c.fnum() >= 1,
            c.fden() >= 1,
            m.fden() >= 1,
            x.sden() >= 1,
    ;
    lemma_rat_make_recover(x, zneg, znm, zdm);
}

/// Dividing by a nonzero value and multiplying by it again is exact:
/// `(x / c) * c` equals `x` as a value whenever the quotient is
/// representable.
pub proof fn lemma_div_mul_exact(x: Value, c: Value)
    requires
        x.wf(),
        c.wf(),
        x is Finite,
        c is Finite,
        c.fnum() != 0,
        Value::spec_div(x, c) is Finite,
    ensures
        Value::spec_mul(Value::spec_div(x, c), c) is Finite,
        Value::spec_mul(Value::spec_div(x, c), c).eq_val(x),
{
    let q = Value::spec_div(x, c);
    lemma_spec_div_wf(x, c);
    lemma_div_frac(x, c);
    let zneg = q.spec_sign_neg() != c.spec_sign_neg();
    let znm = q.fnum() * c.fnum();
    let zdm = q.fden() * c.fden();
    assert(zdm >= 1) by (nonlinear_arith)
        requires
            q.fden() >= 1,
            c.fden() >= 1,
            zdm == q.fden() * c.fden(),
    ;
    assert(sg(zneg, znm) * x.sden() == x.snum() * zdm) by (nonlinear_arith)
        requires
            q.snum() * (x.sden() * c.snum()) == (x.snum() * c.sden()) * q.sden(),
            znm == q.fnum() * c.fnum(),
            zdm == q.fden() * c.fden(),
            q.snum() == sg(q.spec_sign_neg(), q.fnum()),
            c.snum() == sg(c.spec_sign_neg(), c.fnum()),
            c.sden() == c.fden() as int,
            q.sden() == q.fden() as int,
            zneg == (q.spec_sign_neg() != c.spec_sign_neg()),
            sg(zneg, znm) == if zneg {
                -(znm as int)
            } else {
                znm as int
            },
            c.fnum() >= 1,
            c.fden() >= 1,
            q.fden() >= 1,
            x.sden() >= 1,
    ;
    lemma_rat_make_recover(x, zneg, znm, zdm);
}

/// Addition respects value equality in its first operand.
pub proof fn lemma_add_congr(a: Value, a2: Value, k: Value)
    requires
        a.wf(),
        a2.wf(),
        k.wf(),
        a is Finite,
        a2 is Finite,
        k is Finite,
        a.eq_val(a2),
    ensures
        Value::spec_add(a, k) is Finite <==> Value::spec_add(a2, k) is Finite,
        Value::spec_add(a, k) is Finite ==> Value::spec_add(a, k).eq_val(Value::spec_add(a2, k)),
{
    let n = a.snum() * k.sden() + k.snum() * a.sden();
    let d = a.sden() * k.sden();
    let n2 = a2.snum() * k.sden() + k.snum() * a2.sden();
    let d2 = a2.sden() * k.sden();
    assert(n * d2 == n2 * d && d >= 1 && d2 >= 1) by (nonlinear_arith)
        requires
            a.snum() * a2.sden() == a2.snum() * a.sden(),
            n == a.snum() * k.sden() + k.snum() * a.sden(),
            n2 == a2.snum() * k.sden() + k.snum() * a2.sden(),
            d == a.sden() * k.sden(),
            d2 == a2.sden() * k.sden(),
            a.sden() >= 1,
            a2.sden() >= 1,
            k.sden() >= 1,
    ;
    assert((n == 0 <==> n2 == 0) && (n < 0 <==> n2 < 0)) by (nonlinear_arith)
        requires
            n * d2 == n2 * d,
            d >= 1,
            d2 >= 1,
    ;
    if n == 0 {
    } else {
        let nm = (if n < 0 {
            -n
        } else {
            n
        }) as nat;
        let nm2 = (if n2 < 0 {
            -n2
        } else {
            n2
        }) as nat;
        assert(nm * (d2 as nat) == nm2 * (d as nat)) by (nonlinear_arith)
            requires
                n * d2 == n2 * d,
                d >= 1,
                d2 >= 1,
                (n < 0 <==> n2 < 0),
                n != 0,
                nm == (if n < 0 {
                    -n
                } else {
                    n
                }) as nat,
                nm2 == (if n2 < 0 {
                    -n2
                } else {
                    n2
                }) as nat,
        ;
        lemma_rat_make_eq(n < 0, nm, d as nat, nm2, d2 as nat);
        if Value::spec_add(a, k) is Finite {
            lemma_eq_val_refl(Value::spec_add(a, k));
        }
    }
}

/// Division by a nonzero value respects value equality in its first
/// operand.
pub proof fn lemma_div_congr(a: Value, a2: Value, c: Value)
    requires
        a.wf(),
        a2.wf(),
        c.wf(),
        a is Finite,
        a2 is Finite,
        c is Finite,
        c.fnum() != 0,
        a.eq_val(a2),
    ensures
        Value::spec_div(a, c) is Finite <==> Value::spec_div(a2, c) is Finite,
        Value::spec_div(a, c) is Finite ==> Value::spec_div(a, c).eq_val(Value::spec_div(a2, c)),
{
    let nm = a.fnum() * c.fden();
    let dm = a.fden() * c.fnum();
    let nm2 = a2.fnum() * c.fden();
    let dm2 = a2.fden() * c.fnum();
    assert(a.fnum() * a2.fden() == a2.fnum() * a.fden() && (a.fnum() >= 1 && a2.fnum() >= 1
        ==> a.spec_sign_neg() == a2.spec_sign_neg()) && (a.fnum() == 0 <==> a2.fnum() == 0))
        by (nonlinear_arith)
        requires
            a.snum() * a2.sden() == a2.snum() * a.sden(),
            a.snum() == sg(a.spec_sign_neg(), a.fnum()),
            a2.snum() == sg(a2.spec_sign_neg(), a2.fnum()),
            a.sden() == a.fden() as int,
            a2.sden() == a2.fden() as int,
            a.fden() >= 1,
            a2.fden() >= 1,
    ;
    assert(nm * dm2 == nm2 * dm && dm >= 1 && dm2 >= 1) by (nonlinear_arith)
        requires
            a.fnum() * a2.fden() == a2.fnum() * a.fden(),
            nm == a.fnum() * c.fden(),
            dm == a.fden() * c.fnum(),
            nm2 == a2.fnum() * c.fden(),
            dm2 == a2.fden() * c.fnum(),
            a.fden() >= 1,
            a2.fden() >= 1,
            c.fden() >= 1,
            c.fnum() >= 1,
    ;
    if a.fnum() == 0 {
        lemma_rat_make_zero(a.spec_sign_neg() != c.spec_sign_neg(), dm);
        lemma_rat_make_zero(a2.spec_sign_neg() != c.spec_sign_neg(), dm2);
    } else {
        lemma_rat_make_eq(a.spec_sign_neg() != c.spec_sign_neg(), nm, dm, nm2, dm2);
        if Value::spec_div(a, c) is Finite {
            lemma_eq_val_refl(Value::spec_div(a, c));
        }
    }
}

/// Subtraction respects value equality in its first operand.
pub proof fn lemma_sub_congr(a: Value, a2: Value, k: Value)
    requires
        a.wf(),
        a2.wf(),
        k.wf(),
        a is Finite,
        a2 is Finite,
        k is Finite,
        a.eq_val(a2),
    ensures
        Value::spec_sub(a, k) is Finite <==> Value::spec_sub(a2, k) is Finite,
        Value::spec_sub(a, k) is Finite ==> Value::spec_sub(a, k).eq_val(Value::spec_sub(a2, k)),
{
    lemma_spec_neg_abs_wf(k);
    lemma_add_congr(a, a2, k.spec_neg());
}


/// A finite sum has a finite first operand.
pub proof fn lemma_add_finite_parts(a: Value, b: Value)
    requires
        b is Finite,
        Value::spec_add(a, b) is Finite,
    ensures
        a is Finite,
{
}

/// A finite difference has a finite first operand.
pub proof fn lemma_sub_finite_parts(a: Value, b: Value)
    requires
        b is Finite,
        Value::spec_sub(a, b) is Finite,
    ensures
        a is Finite,
{
}

/// A finite quotient by a finite divisor has a finite numerator.
pub proof fn lemma_div_finite_num(a: Value, c: Value)
    requires
        c is Finite,
        Value::spec_div(a, c) is Finite,
    ensures
        a is Finite,
{
}

/// A finite affine image `v * c + k` has a finite product term.
pub proof fn lemma_mul_finite_from_add(v: Value, c: Value, k: Value)
    requires
        k is Finite,
        Value::spec_add(Value::spec_mul(v, c), k) is Finite,
    ensures
        Value::spec_mul(v, c) is Finite,
{
}

} // verus!
