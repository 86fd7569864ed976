//! Divisibility and greatest-common-divisor facts used to keep the scalar
//! type's fractions in lowest terms and to show that lowest terms are unique.

use vstd::arithmetic::div_mod::{
    lemma_fundamental_div_mod, lemma_fundamental_div_mod_converse,
};
use vstd::prelude::*;

verus! {

/// `d` divides `n` without remainder.
pub open spec fn divides(d: nat, n: nat) -> bool {
    exists|k: nat| n == #[trigger] (d * k)
}

/// Greatest common divisor by Euclid's recursion; `gcd(0, 0) == 0`.
pub open spec fn gcd(a: nat, b: nat) -> nat
    decreases b,
{
    if b == 0 {
        a
    } else {
        gcd(b, a % b)
    }
}

/// The greatest common divisor divides both of its arguments.
pub proof fn lemma_gcd_divides(a: nat, b: nat)
    ensures
        divides(gcd(a, b), a),
        divides(gcd(a, b), b),
    decreases b,
{
    if b == 0 {
        assert(a == a * 1);
        assert(0 == a * 0);
    } else {
        lemma_gcd_divides(b, a % b);
        let g = gcd(b, a % b);
        let k1 = choose|k: nat| b == #[trigger] (g * k);
        let k2 = choose|k: nat| a % b == #[trigger] (g * k);
        lemma_fundamental_div_mod(a as int, b as int);
        assert(a == b * (a / b) + a % b);
        assert(a == g * (k1 * (a / b) + k2)) by (nonlinear_arith)
            requires
                b == g * k1,
                a % b == g * k2,
                a == b * (a / b) + a % b,
        ;
    }
}

/// A divisor of a positive number is positive, and at most that number.
pub proof fn lemma_divides_pos_bound(d: nat, n: nat)
    requires
        divides(d, n),
        n >= 1,
    ensures
        1 <= d <= n,
{
    let k = choose|k: nat| n == #[trigger] (d * k);
    assert(1 <= d && k >= 1 && d <= d * k) by (nonlinear_arith)
        requires
            n == d * k,
            n >= 1,
    ;
}

/// With a positive second argument the greatest common divisor is positive.
pub proof fn lemma_gcd_pos(a: nat, b: nat)
    requires
        b >= 1,
    ensures
        1 <= gcd(a, b) <= b,
{
    lemma_gcd_divides(a, b);
    lemma_divides_pos_bound(gcd(a, b), b);
}

/// A common divisor of `a` and `b` divides `a - b * q`.
proof fn lemma_divides_linear(d: nat, a: nat, b: nat, q: nat)
    requires
        divides(d, a),
        divides(d, b),
        a >= b * q,
    ensures
        divides(d, (a - b * q) as nat),
{
    let ka = choose|k: nat| a == #[trigger] (d * k);
    let kb = choose|k: nat| b == #[trigger] (d * k);
    if d == 0 {
        assert(a == 0 && b == 0) by (nonlinear_arith)
            requires
                a == d * ka,
                b == d * kb,
                d == 0,
        ;
        assert((a - b * q) as nat == d * 0);
    } else {
        assert(ka >= kb * q && (a - b * q) as nat == d * ((ka - kb * q) as nat)) by (nonlinear_arith)
            requires
                a == d * ka,
                b == d * kb,
                a >= b * q,
                d >= 1,
        ;
    }
}

/// Every common divisor of `a` and `b` divides their greatest common divisor.
pub proof fn lemma_common_divisor_divides_gcd(d: nat, a: nat, b: nat)
    requires
        divides(d, a),
        divides(d, b),
    ensures
        divides(d, gcd(a, b)),
    decreases b,
{
    if b == 0 {
        assert(gcd(a, b) == a);
    } else {
        lemma_fundamental_div_mod(a as int, b as int);
        assert(a == b * (a / b) + a % b);
        assert(a >= b * (a / b));
        lemma_divides_linear(d, a, b, a / b);
        assert((a - b * (a / b)) as nat == a % b);
        lemma_common_divisor_divides_gcd(d, b, a % b);
    }
}

/// The greatest common divisor scales: `gcd(a*k, b*k) == gcd(a, b) * k`.
pub proof fn lemma_gcd_scale(a: nat, b: nat, k: nat)
    requires
        k >= 1,
    ensures
        gcd(a * k, b * k) == gcd(a, b) * k,
    decreases b,
{
    if b == 0 {
        assert(b * k == 0);
    } else {
        assert(b * k >= 1) by (nonlinear_arith)
            requires
                b >= 1,
                k >= 1,
        ;
        lemma_fundamental_div_mod(a as int, b as int);
        let q = a / b;
        let r = a % b;
        assert((a * k) as int == (b * k) as int * q + (r * k) as int) by (nonlinear_arith)
            requires
                a == b * q + r,
        ;
        assert(0 <= r * k < b * k) by (nonlinear_arith)
            requires
                0 <= r < b,
                k >= 1,
        ;
        lemma_fundamental_div_mod_converse(
            (a * k) as int,
            (b * k) as int,
            q as int,
            (r * k) as int,
        );
        assert((a * k) % (b * k) == r * k);
        lemma_gcd_scale(b, a % b, k);
    }
}

/// Antisymmetry: two numbers dividing each other are equal.
pub proof fn lemma_divides_antisym(a: nat, b: nat)
    requires
        divides(a, b),
        divides(b, a),
    ensures
        a == b,
{
    if a == 0 {
        let k = choose|k: nat| b == #[trigger] (a * k);
        assert(b == 0) by (nonlinear_arith)
            requires
                b == a * k,
                a == 0,
        ;
    } else if b == 0 {
        let k = choose|k: nat| a == #[trigger] (b * k);
        assert(a == 0) by (nonlinear_arith)
            requires
                a == b * k,
                b == 0,
        ;
    } else {
        lemma_divides_pos_bound(a, b);
        lemma_divides_pos_bound(b, a);
    }
}

/// The greatest common divisor is symmetric in its arguments.
pub proof fn lemma_gcd_sym(a: nat, b: nat)
    ensures
        gcd(a, b) == gcd(b, a),
{
    lemma_gcd_divides(a, b);
    lemma_gcd_divides(b, a);
    lemma_common_divisor_divides_gcd(gcd(a, b), b, a);
    lemma_common_divisor_divides_gcd(gcd(b, a), a, b);
    lemma_divides_antisym(gcd(a, b), gcd(b, a));
}

/// Euclid's lemma: a number coprime to `b` that divides `b * c` divides `c`.
pub proof fn lemma_euclid(a: nat, b: nat, c: nat)
    requires
        divides(a, b * c),
        gcd(a, b) == 1,
        c >= 1,
    ensures
        divides(a, c),
{
    lemma_gcd_scale(a, b, c);
    assert(gcd(a * c, b * c) == c);
    // The product itself witnesses that `a` divides `a * c`.
    assert(a * c == a * c);
    assert(divides(a, a * c));
    lemma_common_divisor_divides_gcd(a, a * c, b * c);
}

/// Dividing out the greatest common divisor leaves coprime parts.
pub proof fn lemma_gcd_reduced(a: nat, b: nat)
    requires
        b >= 1,
    ensures
        gcd(a / gcd(a, b), b / gcd(a, b)) == 1,
{
    let g = gcd(a, b);
    lemma_gcd_pos(a, b);
    lemma_gcd_divides(a, b);
    let ka = choose|k: nat| a == #[trigger] (g * k);
    let kb = choose|k: nat| b == #[trigger] (g * k);
    assert(a / g == ka && b / g == kb) by (nonlinear_arith)
        requires
            a == g * ka,
            b == g * kb,
            g >= 1,
    ;
    let g2 = gcd(ka, kb);
    assert(kb >= 1) by (nonlinear_arith)
        requires
            b == g * kb,
            b >= 1,
    ;
    lemma_gcd_pos(ka, kb);
    lemma_gcd_divides(ka, kb);
    let ma = choose|k: nat| ka == #[trigger] (g2 * k);
    let mb = choose|k: nat| kb == #[trigger] (g2 * k);
    assert(a == (g2 * g) * ma && b == (g2 * g) * mb) by (nonlinear_arith)
        requires
            a == g * ka,
            b == g * kb,
            ka == g2 * ma,
            kb == g2 * mb,
    ;
    lemma_common_divisor_divides_gcd(g2 * g, a, b);
    lemma_divides_pos_bound(g2 * g, g);
    assert(g2 == 1) by (nonlinear_arith)
        requires
            g2 * g <= g,
            g2 >= 1,
            g >= 1,
    ;
}

/// Lowest terms are unique: equal fractions in lowest terms have equal
/// numerators and equal denominators.
pub proof fn lemma_reduced_unique(n1: nat, d1: nat, n2: nat, d2: nat)
    requires
        d1 >= 1,
        d2 >= 1,
        gcd(n1, d1) == 1,
        gcd(n2, d2) == 1,
        n1 * d2 == n2 * d1,
    ensures
        n1 == n2,
        d1 == d2,
{
    // d1 divides n1 * d2 (it equals n2 * d1), and is coprime to n1, so d1 | d2.
    assert(n2 * d1 == d1 * n2) by (nonlinear_arith);
    assert(divides(d1, n1 * d2));
    lemma_gcd_sym(d1, n1);
    lemma_euclid(d1, n1, d2);
    assert(n1 * d2 == d2 * n1) by (nonlinear_arith);
    assert(divides(d2, n2 * d1));
    lemma_gcd_sym(d2, n2);
    lemma_euclid(d2, n2, d1);
    lemma_divides_antisym(d1, d2);
    assert(n1 == n2) by (nonlinear_arith)
        requires
            n1 * d2 == n2 * d1,
            d1 == d2,
            d1 >= 1,
    ;
}

/// Exact division: dividing a multiple of `d` by `d` recovers the factor.
pub proof fn lemma_div_exact(n: nat, d: nat)
    requires
        d >= 1,
        divides(d, n),
    ensures
        (n / d) * d == n,
{
    let k = choose|k: nat| n == #[trigger] (d * k);
    assert(n / d == k && k * d == n) by (nonlinear_arith)
        requires
            n == d * k,
            d >= 1,
    ;
}

/// Euclid's recursion step, exposed for iterative computation.
pub proof fn lemma_gcd_step(a: nat, b: nat)
    requires
        b >= 1,
    ensures
        gcd(a, b) == gcd(b, a % b),
{
}

/// Computes the greatest common divisor of two machine integers.
pub fn gcd_u128(a: u128, b: u128) -> (g: u128)
    ensures
        g as nat == gcd(a as nat, b as nat),
{
    let mut x: u128 = a;
    let mut y: u128 = b;
    while y != 0
        invariant
            gcd(x as nat, y as nat) == gcd(a as nat, b as nat),
        decreases y,
    {
        let r: u128 = x % y;
        proof {
            lemma_gcd_step(x as nat, y as nat);
        }
        x = y;
        y = r;
    }
    x
}

} // verus!
