//! Rendering a measurement as a string.

use crate::measurement::Measurement;
use crate::unit::Unit;
use crate::value::{pow10, Value};
use vstd::arithmetic::div_mod::{
    lemma_fundamental_div_mod, lemma_fundamental_div_mod_converse,
};
use vstd::prelude::*;
use vstd::string::StringExecFns;

verus! {

/// The decimal digits of `n`, taken modulo `10^w` and padded with
/// leading zeros to exactly `w` digits, most significant first.
pub open spec fn dig_pad(n: nat, w: nat) -> Seq<u8>
    decreases w,
{
    if w == 0 {
        Seq::empty()
    } else {
        dig_pad(n / 10, (w - 1) as nat).push((n % 10) as u8)
    }
}

/// The decimal digits of `n`, most significant first, without leading
/// zeros; zero itself is the single digit `0`.
pub open spec fn dig_rep(n: nat) -> Seq<u8>
    decreases n,
{
    if n < 10 {
        seq![n as u8]
    } else {
        dig_rep(n / 10).push((n % 10) as u8)
    }
}

/// The character of one decimal digit.
pub open spec fn digit_char(d: u8) -> char {
    if d == 0 {
        '0'
    } else if d == 1 {
        '1'
    } else if d == 2 {
        '2'
    } else if d == 3 {
        '3'
    } else if d == 4 {
        '4'
    } else if d == 5 {
        '5'
    } else if d == 6 {
        '6'
    } else if d == 7 {
        '7'
    } else if d == 8 {
        '8'
    } else {
        '9'
    }
}

/// Digits as characters.
pub open spec fn chars_of(ds: Seq<u8>) -> Seq<char> {
    ds.map_values(|d: u8| digit_char(d))
}

/// `a / b` rounded to the nearest integer, ties to the even neighbour.
pub open spec fn rounded_div(a: nat, b: nat) -> nat
    recommends
        b >= 1,
{
    let q = a / b;
    let r = a % b;
    if 2 * r > b || (2 * r == b && q % 2 == 1) {
        q + 1
    } else {
        q
    }
}

/// The numeric literal of a value at a precision: an exact integer is
/// written bare; any other finite value is rounded half-to-even to
/// exactly `prec` fractional digits (and to an integer for a zero
/// precision); infinities and not-a-number are written by name.
pub open spec fn spec_value_literal(v: Value, prec: nat) -> Seq<char> {
    match v {
        Value::NaN => "NaN"@,
        Value::Infinite { neg } => if neg {
            "-inf"@
        } else {
            "inf"@
        },
        Value::Finite { neg, num, den } => {
            let sign: Seq<char> = if neg {
                "-"@
            } else {
                Seq::empty()
            };
            if den == 1 {
                sign + chars_of(dig_rep(num as nat))
            } else {
                let t = rounded_div(num as nat * pow10(prec), den as nat);
                if prec == 0 {
                    sign + chars_of(dig_rep(t))
                } else {
                    sign + chars_of(dig_rep(t / pow10(prec))) + "."@ + chars_of(
                        dig_pad(t % pow10(prec), prec),
                    )
                }
            }
        },
    }
}

/// The rendering of a measurement: its value's numeric literal, one
/// space, and the unit's symbol.
pub open spec fn spec_format(v: Value, sym: Seq<char>, prec: nat) -> Seq<char> {
    spec_value_literal(v, prec) + " "@ + sym
}

/// Renders measurements with a configured number of fractional digits
/// for values that are not exact integers.
pub struct Formatter {
    pub precision: usize,
}

impl Formatter {
    /// A formatter rounding non-integer values to `precision` fractional
    /// digits.
    pub fn with_precision(precision: usize) -> (r: Self)
        ensures
            r.precision == precision,
    {
        Formatter { precision }
    }

    /// Renders a measurement, e.g. `"21.5 °C"`.
    pub fn format<U: Unit>(&self, measurement: &Measurement<U>) -> (s: String)
        requires
            measurement.value.wf(),
        ensures
            s@ == spec_format(
                measurement.value,
                measurement.unit.symbol_spec(),
                self.precision as nat,
            ),
    {
        let mut s = value_literal(&measurement.value, self.precision);
        s.append(" ");
        let sym = measurement.unit.symbol();
        s.append(sym.as_str());
        proof {
            assert(s@ =~= spec_format(
                measurement.value,
                measurement.unit.symbol_spec(),
                self.precision as nat,
            ));
        }
        s
    }
}

impl Default for Formatter {
    /// The default formatter shows no fractional digits.
    fn default() -> (r: Self)
        ensures
            r.precision == 0,
    {
        Formatter { precision: 0 }
    }
}

/// Appends the character of one digit.
fn append_digit(s: &mut String, d: u8)
    requires
        d < 10,
    ensures
        final(s)@ == old(s)@ + seq![digit_char(d)],
{
    match d {
        0 => {
            proof {
                reveal_strlit("0");
            }
            s.append("0");
        },
        1 => {
            proof {
                reveal_strlit("1");
            }
            s.append("1");
        },
        2 => {
            proof {
                reveal_strlit("2");
            }
            s.append("2");
        },
        3 => {
            proof {
                reveal_strlit("3");
            }
            s.append("3");
        },
        4 => {
            proof {
                reveal_strlit("4");
            }
            s.append("4");
        },
        5 => {
            proof {
                reveal_strlit("5");
            }
            s.append("5");
        },
        6 => {
            proof {
                reveal_strlit("6");
            }
            s.append("6");
        },
        7 => {
            proof {
                reveal_strlit("7");
            }
            s.append("7");
        },
        8 => {
            proof {
                reveal_strlit("8");
            }
            s.append("8");
        },
        _ => {
            proof {
                reveal_strlit("9");
            }
            s.append("9");
        },
    }
    proof {
        assert(s@ =~= old(s)@ + seq![digit_char(d)]);
    }
}

/// Appends the characters of a digit sequence.
fn append_digit_chars(s: &mut String, digs: &Vec<u8>)
    requires
        forall|i: int| 0 <= i < digs@.len() ==> digs@[i] < 10,
    ensures
        final(s)@ == old(s)@ + chars_of(digs@),
{
    let ghost s0 = s@;
    let mut i: usize = 0;
    while i < digs.len()
        invariant
            i <= digs@.len(),
            forall|j: int| 0 <= j < digs@.len() ==> digs@[j] < 10,
            s@ == s0 + chars_of(digs@.take(i as int)),
        decreases digs@.len() - i,
    {
        append_digit(s, digs[i]);
        proof {
            assert(digs@.take(i + 1) =~= digs@.take(i as int).push(digs@[i as int]));
            assert(chars_of(digs@.take(i + 1)) =~= chars_of(digs@.take(i as int)).push(
                digit_char(digs@[i as int]),
            ));
            assert(s0 + chars_of(digs@.take(i + 1)) =~= (s0 + chars_of(digs@.take(i as int)))
                + seq![digit_char(digs@[i as int])]);
        }
        i = i + 1;
    }
    proof {
        assert(digs@.take(digs@.len() as int) =~= digs@);
    }
}

/// Pushes the bare decimal digits of `n`, most significant first.
fn push_rep_digits(n: u64, out: &mut Vec<u8>)
    ensures
        final(out)@ == old(out)@ + dig_rep(n as nat),
        forall|i: int| old(out)@.len() <= i < final(out)@.len() ==> final(out)@[i] < 10,
    decreases n,
{
    if n < 10 {
        out.push(n as u8);
        proof {
            assert(final(out)@ =~= old(out)@ + dig_rep(n as nat));
        }
    } else {
        push_rep_digits(n / 10, out);
        out.push((n % 10) as u8);
        proof {
            assert(final(out)@ =~= old(out)@ + dig_rep(n as nat));
        }
    }
}

/// Increments the `w`-digit number held in `digs`; yields true exactly
/// when the increment rolls the number over to zero.
fn inc_digits(digs: &mut Vec<u8>, Ghost(v): Ghost<nat>) -> (rolled: bool)
    requires
        old(digs)@ == dig_pad(v, old(digs)@.len() as nat),
        v < pow10(old(digs)@.len() as nat),
    ensures
        final(digs)@.len() == old(digs)@.len(),
        !rolled ==> v + 1 < pow10(old(digs)@.len() as nat) && final(digs)@ == dig_pad(
            v + 1,
            old(digs)@.len() as nat,
        ),
        rolled ==> v + 1 == pow10(old(digs)@.len() as nat) && final(digs)@ == dig_pad(
            0,
            old(digs)@.len() as nat,
        ),
    decreases old(digs)@.len(),
{
    let n = digs.len();
    if n == 0 {
        true
    } else {
        let ghost w = n as nat;
        proof {
            lemma_fundamental_div_mod(v as int, 10);
            assert(dig_pad(v, w).last() == (v % 10) as u8);
            assert(dig_pad(v, w).drop_last() =~= dig_pad(v / 10, (w - 1) as nat));
            assert(v / 10 < pow10((w - 1) as nat)) by (nonlinear_arith)
                requires
                    v < pow10(w),
                    pow10(w) == 10 * pow10((w - 1) as nat),
                    v == 10 * (v / 10) + (v % 10),
                    v % 10 < 10,
            ;
        }
        let last = digs[n - 1];
        let _ = digs.pop();
        if last < 9 {
            digs.push(last + 1);
            proof {
                assert((v + 1) / 10 == v / 10 && (v + 1) % 10 == v % 10 + 1) by {
                    lemma_fundamental_div_mod_converse(
                        v as int + 1,
                        10,
                        (v / 10) as int,
                        (v % 10) as int + 1,
                    );
                };
                assert(final(digs)@ =~= dig_pad(v + 1, w));
                assert(v + 1 < pow10(w)) by (nonlinear_arith)
                    requires
                        v < pow10(w),
                        pow10(w) == 10 * pow10((w - 1) as nat),
                        v == 10 * (v / 10) + (v % 10),
                        v % 10 < 9,
                        v / 10 < pow10((w - 1) as nat),
                ;
            }
            false
        } else {
            let rolled = inc_digits(digs, Ghost((v / 10) as nat));
            digs.push(0);
            if rolled {
                proof {
                    assert(v % 10 == 9);
                    assert(v + 1 == 10 * (v / 10 + 1));
                    assert(v + 1 == pow10(w)) by (nonlinear_arith)
                        requires
                            v + 1 == 10 * (v / 10 + 1),
                            v / 10 + 1 == pow10((w - 1) as nat),
                            pow10(w) == 10 * pow10((w - 1) as nat),
                    ;
                    assert(0nat / 10 == 0 && 0nat % 10 == 0);
                    assert(final(digs)@ =~= dig_pad(0, w));
                }
                true
            } else {
                proof {
                    assert(v % 10 == 9);
                    assert((v + 1) / 10 == v / 10 + 1 && (v + 1) % 10 == 0) by {
                        lemma_fundamental_div_mod_converse(
                            v as int + 1,
                            10,
                            (v / 10) as int + 1,
                            0,
                        );
                    };
                    assert(final(digs)@ =~= dig_pad(v + 1, w));
                    assert(v + 1 < pow10(w)) by (nonlinear_arith)
                        requires
                            v + 1 == 10 * (v / 10 + 1),
                            v / 10 + 1 < pow10((w - 1) as nat),
                            pow10(w) == 10 * pow10((w - 1) as nat),
                    ;
                }
                false
            }
        }
    }
}

/// A padded digit string has exactly its width of digits, each below
/// ten.
proof fn lemma_dig_pad_digits(n: nat, w: nat)
    ensures
        dig_pad(n, w).len() == w,
        forall|i: int| 0 <= i < w ==> dig_pad(n, w)[i] < 10,
    decreases w,
{
    if w > 0 {
        lemma_dig_pad_digits(n / 10, (w - 1) as nat);
    }
}

/// Numbers with an even difference share a parity.
proof fn lemma_parity(t: nat, q: nat, h: nat, f: nat)
    requires
        t == 2 * (q * h) + f,
    ensures
        t % 2 == f % 2,
{
    lemma_fundamental_div_mod(f as int, 2);
    lemma_fundamental_div_mod_converse(
        t as int,
        2,
        (q * h) as int + (f / 2) as int,
        (f % 2) as int,
    );
}

/// The numeric literal of a value, as [`spec_value_literal`] describes.
fn value_literal(v: &Value, prec: usize) -> (s: String)
    requires
        v.wf(),
    ensures
        s@ == spec_value_literal(*v, prec as nat),
{
    match v {
        Value::NaN => String::from_str("NaN"),
        Value::Infinite { neg } => {
            if *neg {
                String::from_str("-inf")
            } else {
                String::from_str("inf")
            }
        },
        Value::Finite { neg, num, den } => {
            let mut s = String::new();
            if *neg {
                s.append("-");
            }
            let ghost sign: Seq<char> = if *neg {
                "-"@
            } else {
                Seq::empty()
            };
            proof {
                assert(s@ =~= sign);
            }
            if *den == 1 {
                let mut digs: Vec<u8> = Vec::new();
                push_rep_digits(*num, &mut digs);
                proof {
                    assert(digs@ =~= dig_rep(*num as nat));
                }
                append_digit_chars(&mut s, &digs);
                proof {
                    assert(s@ =~= spec_value_literal(*v, prec as nat));
                }
                s
            } else {
                let t = rounded_fraction(*num, *den, prec);
                proof {
                    assert(s@ =~= sign);
                }
                let mut digs: Vec<u8> = Vec::new();
                push_rep_digits(t.0, &mut digs);
                proof {
                    assert(digs@ =~= dig_rep(t.0 as nat));
                }
                append_digit_chars(&mut s, &digs);
                if prec > 0 {
                    s.append(".");
                    append_digit_chars(&mut s, &t.1);
                }
                proof {
                    let tt = rounded_div(*num as nat * pow10(prec as nat), *den as nat);
                    assert(pow10(0) == 1);
                    assert(tt / 1 == tt);
                    if prec == 0 {
                        assert(t.0 as nat == tt);
                        assert(digs@ =~= dig_rep(tt));
                        assert(s@ =~= sign + chars_of(dig_rep(tt)));
                    } else {
                        assert(digs@ =~= dig_rep(tt / pow10(prec as nat)));
                        assert(t.1@ == dig_pad(tt % pow10(prec as nat), prec as nat));
                        assert(s@ =~= sign + chars_of(dig_rep(tt / pow10(prec as nat))) + "."@
                            + chars_of(dig_pad(tt % pow10(prec as nat), prec as nat)));
                    }
                    assert(s@ =~= spec_value_literal(*v, prec as nat));
                }
                s
            }
        },
    }
}

/// The integer part and the `prec` fraction digits of `num / den`,
/// rounded half-to-even at the last digit.
fn rounded_fraction(num: u64, den: u64, prec: usize) -> (r: (u64, Vec<u8>))
    requires
        2 <= den <= Value::MAX_MAG,
        num <= Value::MAX_MAG,
    ensures
        ({
            let t = rounded_div(num as nat * pow10(prec as nat), den as nat);
            &&& r.0 as nat == t / pow10(prec as nat)
            &&& r.1@ == dig_pad(t % pow10(prec as nat), prec as nat)
            &&& forall|i: int| 0 <= i < r.1@.len() ==> r.1@[i] < 10
        }),
{
    proof {
        crate::value::lemma_pow10_pos(prec as nat);
    }
    let q0 = num / den;
    let r0 = num % den;
    let mut digs: Vec<u8> = Vec::new();
    let mut rem: u64 = r0;
    let ghost p = prec as nat;
    let mut i: usize = 0;
    let ghost mut fv: nat = 0nat;
    proof {
        assert(r0 as nat * pow10(0) == fv * den + rem as nat) by (nonlinear_arith)
            requires
                pow10(0) == 1,
                fv == 0,
                rem == r0,
        ;
        assert(pow10(0) == 1);
    }
    while i < prec
        invariant
            i <= prec,
            2 <= den <= Value::MAX_MAG,
            r0 < den,
            rem < den,
            digs@.len() == i,
            digs@ == dig_pad(fv, i as nat),
            fv < pow10(i as nat),
            r0 as nat * pow10(i as nat) == fv * (den as nat) + rem as nat,
            forall|j: int| 0 <= j < digs@.len() ==> digs@[j] < 10,
        decreases prec - i,
    {
        let rem2: u128 = (rem as u128) * 10;
        proof {
            lemma_fundamental_div_mod(rem2 as int, den as int);
            assert(rem2 < 10 * (den as u128)) by (nonlinear_arith)
                requires
                    rem < den,
                    rem2 == (rem as u128) * 10,
            ;
            assert((rem2 as nat) / (den as nat) < 10) by (nonlinear_arith)
                requires
                    rem2 as int == (den as int) * ((rem2 as int) / (den as int)) + (rem2 as int) % (
                    den as int),
                    0 <= (rem2 as int) % (den as int) < (den as int),
                    (rem2 as nat) < 10 * (den as nat),
                    den >= 2,
            ;
        }
        let digit: u64 = (rem2 / (den as u128)) as u64;
        let new_rem: u64 = (rem2 % (den as u128)) as u64;
        proof {
            let fv2 = 10 * fv + digit as nat;
            assert(r0 as nat * pow10((i + 1) as nat) == fv2 * (den as nat) + new_rem as nat)
                by (nonlinear_arith)
                requires
                    r0 as nat * pow10(i as nat) == fv * (den as nat) + rem as nat,
                    pow10((i + 1) as nat) == 10 * pow10(i as nat),
                    rem2 as nat == (rem as nat) * 10,
                    rem2 as nat == (digit as nat) * (den as nat) + new_rem as nat,
                    fv2 == 10 * fv + digit as nat,
            ;
            assert(fv2 / 10 == fv && fv2 % 10 == digit as nat) by {
                lemma_fundamental_div_mod_converse(
                    fv2 as int,
                    10,
                    fv as int,
                    digit as int,
                );
            };
            assert(dig_pad(fv2, (i + 1) as nat) =~= dig_pad(fv, i as nat).push(digit as u8));
            assert(fv2 < pow10((i + 1) as nat)) by (nonlinear_arith)
                requires
                    fv < pow10(i as nat),
                    fv2 == 10 * fv + digit as nat,
                    digit < 10,
                    pow10((i + 1) as nat) == 10 * pow10(i as nat),
            ;
            lemma_fundamental_div_mod(rem2 as int, den as int);
        }
        digs.push(digit as u8);
        rem = new_rem;
        proof {
            fv = (10 * fv + digit as nat);
        }
        i = i + 1;
    }
    // The scaled quotient before rounding, and its remainder.
    let ghost a = num as nat * pow10(p);
    let ghost t0 = (q0 as nat) * pow10(p) + fv;
    proof {
        lemma_fundamental_div_mod(num as int, den as int);
        assert(a == t0 * (den as nat) + rem as nat) by (nonlinear_arith)
            requires
                num as nat == (q0 as nat) * (den as nat) + r0 as nat,
                r0 as nat * pow10(p) == fv * (den as nat) + rem as nat,
                a == num as nat * pow10(p),
                t0 == (q0 as nat) * pow10(p) + fv,
        ;
        lemma_fundamental_div_mod_converse(a as int, den as int, t0 as int, rem as int);
        assert(a / (den as nat) == t0 && a % (den as nat) == rem as nat);
    }
    // Decide the half-to-even rounding from the final remainder and the
    // parity of the last digit.
    let odd: bool = if prec > 0 {
        digs[prec - 1] % 2 == 1
    } else {
        q0 % 2 == 1
    };
    proof {
        if prec > 0 {
            assert(digs@[prec - 1] == (fv % 10) as u8);
            lemma_fundamental_div_mod(fv as int, 10);
            assert(fv == 2 * ((fv / 10) * 5) + fv % 10) by (nonlinear_arith)
                requires
                    fv == (fv / 10) * 10 + fv % 10,
            ;
            lemma_parity(fv, (fv / 10) as nat, 5, (fv % 10) as nat);
            assert(pow10(p) == 2 * (5 * pow10((p - 1) as nat)));
            assert(t0 == 2 * ((q0 as nat) * (5 * pow10((p - 1) as nat))) + fv)
                by (nonlinear_arith)
                requires
                    t0 == (q0 as nat) * pow10(p) + fv,
                    pow10(p) == 2 * (5 * pow10((p - 1) as nat)),
            ;
            lemma_parity(t0, q0 as nat, (5 * pow10((p - 1) as nat)) as nat, fv);
            assert((fv % 10) % 2 == fv % 2);
            assert(odd == (t0 % 2 == 1));
        } else {
            assert(pow10(0) == 1);
            assert(t0 == q0 as nat) by (nonlinear_arith)
                requires
                    t0 == (q0 as nat) * pow10(p) + fv,
                    pow10(p) == 1,
                    fv < pow10(p),
            ;
        }
    }
    let up: bool = 2 * rem > den || (2 * rem == den && odd);
    let ghost t = rounded_div(a, den as nat);
    proof {
        assert(t == if up {
            t0 + 1
        } else {
            t0
        });
    }
    if !up {
        proof {
            assert(t0 / pow10(p) == q0 as nat && t0 % pow10(p) == fv) by {
                lemma_fundamental_div_mod_converse(
                    t0 as int,
                    pow10(p) as int,
                    q0 as int,
                    fv as int,
                );
            };
        }
        (q0, digs)
    } else if prec == 0 {
        proof {
            assert(t == q0 as nat + 1);
            assert(t as int == (t as int) * (pow10(p) as int) + 0) by (nonlinear_arith)
                requires
                    pow10(p) == 1,
            ;
            assert((t as int) / (pow10(p) as int) == t as int && t % pow10(p) == 0) by {
                lemma_fundamental_div_mod_converse(
                    t as int,
                    pow10(p) as int,
                    t as int,
                    0,
                );
            };
            assert(digs@ =~= dig_pad(0, 0));
        }
        (q0 + 1, digs)
    } else {
        let rolled = inc_digits(&mut digs, Ghost(fv));
        proof {
            lemma_dig_pad_digits(fv + 1, p);
            lemma_dig_pad_digits(0, p);
        }
        if rolled {
            proof {
                assert(t == (q0 as nat + 1) * pow10(p)) by (nonlinear_arith)
                    requires
                        t == t0 + 1,
                        t0 == (q0 as nat) * pow10(p) + fv,
                        fv + 1 == pow10(p),
                ;
                assert(t / pow10(p) == q0 as nat + 1 && t % pow10(p) == 0) by {
                    lemma_fundamental_div_mod_converse(
                        t as int,
                        pow10(p) as int,
                        q0 as int + 1,
                        0,
                    );
                };
            }
            (q0 + 1, digs)
        } else {
            proof {
                assert(t / pow10(p) == q0 as nat && t % pow10(p) == fv + 1) by {
                    lemma_fundamental_div_mod_converse(
                        t as int,
                        pow10(p) as int,
                        q0 as int,
                        fv as int + 1,
                    );
                };
            }
            (q0, digs)
        }
    }
}

} // verus!
