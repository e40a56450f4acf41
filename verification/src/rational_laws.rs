//! What the operations on [`Rational`] mean over the real numbers.
//!
//! Wherever a result is defined, the operands were defined and the result
//! stands for exactly the real sum, difference, product, quotient or root
//! (`lemma_*_value`). A result is defined wherever the operands are and the
//! real result is [representable](is_representable) as a fraction of 64
//! bits, and only there (`lemma_*_is_defined_iff`).

use crate::lowest_terms::{
    lemma_lowest_is_defined_iff_representable, lemma_lowest_parts, same_fraction,
};
use crate::rational::{isqrt, lowest, ratio, Rational};
use crate::scalar::Scalar;
use vstd::prelude::*;

verus! {

/// The real product of two integers is the product of their reals.
pub proof fn lemma_real_of_product(a: int, b: int)
    ensures
        (a * b) as real == (a as real) * (b as real),
{
    assert((a * b) as real == (a as real) * (b as real)) by (nonlinear_arith);
}

/// Two fractions that agree by cross-multiplication are the same real.
pub proof fn lemma_fraction_eq(n: int, d: int, m: int, e: int)
    requires
        d != 0,
        e != 0,
        n * e == m * d,
    ensures
        n as real / d as real == m as real / e as real,
{
    lemma_real_of_product(n, e);
    lemma_real_of_product(m, d);
    let nr = n as real;
    let dr = d as real;
    let mr = m as real;
    let er = e as real;
    assert(nr / dr == mr / er) by (nonlinear_arith)
        requires
            dr != 0real,
            er != 0real,
            nr * er == mr * dr,
    ;
}

/// Lowest terms keep the value: a defined `lowest(n, d)` stands for `n / d`.
pub proof fn lemma_lowest_value(n: int, d: int)
    requires
        lowest(n, d).is_defined(),
    ensures
        d > 0,
        lowest(n, d).value() == n as real / d as real,
{
    let l = lowest(n, d);
    lemma_lowest_parts(n, d);
    lemma_fraction_eq(l.num as int, l.den as int, n, d);
}

/// A defined `ratio(n, d)` stands for `n / d`, and `d` was not zero.
pub proof fn lemma_ratio_value(n: int, d: int)
    requires
        ratio(n, d).is_defined(),
    ensures
        d != 0,
        ratio(n, d).value() == n as real / d as real,
{
    if d < 0 {
        lemma_lowest_value(-n, -d);
        assert((-n) * d == n * (-d)) by (nonlinear_arith);
        lemma_fraction_eq(-n, -d, n, d);
    } else {
        lemma_lowest_value(n, d);
    }
}

/// A defined sum is the real sum of two defined operands.
pub broadcast proof fn lemma_add_value(a: Rational, b: Rational)
    requires
        (#[trigger] a.add_model(b)).is_defined(),
    ensures
        a.is_defined(),
        b.is_defined(),
        a.add_model(b).value() == a.value() + b.value(),
{
    lemma_lowest_value(a.num * b.den + b.num * a.den, a.den * b.den);
    lemma_real_of_product(a.num as int, b.den as int);
    lemma_real_of_product(b.num as int, a.den as int);
    lemma_real_of_product(a.den as int, b.den as int);
    let an = a.num as real;
    let ad = a.den as real;
    let bn = b.num as real;
    let bd = b.den as real;
    assert((an * bd + bn * ad) / (ad * bd) == an / ad + bn / bd) by (nonlinear_arith)
        requires
            ad != 0real,
            bd != 0real,
    ;
}

/// A defined difference is the real difference of two defined operands.
pub broadcast proof fn lemma_sub_value(a: Rational, b: Rational)
    requires
        (#[trigger] a.sub_model(b)).is_defined(),
    ensures
        a.is_defined(),
        b.is_defined(),
        a.sub_model(b).value() == a.value() - b.value(),
{
    lemma_lowest_value(a.num * b.den - b.num * a.den, a.den * b.den);
    lemma_real_of_product(a.num as int, b.den as int);
    lemma_real_of_product(b.num as int, a.den as int);
    lemma_real_of_product(a.den as int, b.den as int);
    let an = a.num as real;
    let ad = a.den as real;
    let bn = b.num as real;
    let bd = b.den as real;
    assert((an * bd - bn * ad) / (ad * bd) == an / ad - bn / bd) by (nonlinear_arith)
        requires
            ad != 0real,
            bd != 0real,
    ;
}

/// A defined product is the real product of two defined operands.
pub broadcast proof fn lemma_mul_value(a: Rational, b: Rational)
    requires
        (#[trigger] a.mul_model(b)).is_defined(),
    ensures
        a.is_defined(),
        b.is_defined(),
        a.mul_model(b).value() == a.value() * b.value(),
{
    lemma_lowest_value(a.num * b.num, a.den * b.den);
    lemma_real_of_product(a.num as int, b.num as int);
    lemma_real_of_product(a.den as int, b.den as int);
    let an = a.num as real;
    let ad = a.den as real;
    let bn = b.num as real;
    let bd = b.den as real;
    assert((an * bn) / (ad * bd) == (an / ad) * (bn / bd)) by (nonlinear_arith)
        requires
            ad != 0real,
            bd != 0real,
    ;
}

/// A defined quotient is the real quotient of two defined operands, the
/// divisor not zero.
pub broadcast proof fn lemma_div_value(a: Rational, b: Rational)
    requires
        (#[trigger] a.div_model(b)).is_defined(),
    ensures
        a.is_defined(),
        b.is_defined(),
        b.num != 0,
        b.value() != 0real,
        a.div_model(b).value() == a.value() / b.value(),
{
    lemma_ratio_value(a.num * b.den, b.num * a.den);
    lemma_real_of_product(a.num as int, b.den as int);
    lemma_real_of_product(b.num as int, a.den as int);
    assert(b.num != 0) by (nonlinear_arith)
        requires
            b.num * a.den != 0,
    ;
    let an = a.num as real;
    let ad = a.den as real;
    let bn = b.num as real;
    let bd = b.den as real;
    assert(bn / bd != 0real && (an * bd) / (bn * ad) == (an / ad) / (bn / bd))
        by (nonlinear_arith)
        requires
            ad != 0real,
            bd != 0real,
            bn != 0real,
    ;
}

/// A defined square root is not negative, and its square is the operand.
pub broadcast proof fn lemma_sqrt_value(a: Rational)
    requires
        (#[trigger] a.sqrt_model()).is_defined(),
    ensures
        a.is_defined(),
        a.sqrt_model().value() >= 0real,
        a.sqrt_model().value() * a.sqrt_model().value() == a.value(),
{
    let l = ratio(a.num as int, a.den as int);
    let r = a.sqrt_model();
    let sn = isqrt(l.num as nat) as int;
    let sd = isqrt(l.den as nat) as int;
    lemma_ratio_value(a.num as int, a.den as int);
    assert(sn <= l.num && sd <= l.den) by (nonlinear_arith)
        requires
            0 <= sn,
            0 <= sd,
            sn * sn == l.num,
            sd * sd == l.den,
    ;
    assert(r.num == sn && r.den == sd);
    lemma_real_of_product(sn, sn);
    lemma_real_of_product(sd, sd);
    let rn = r.num as real;
    let rd = r.den as real;
    assert(rn / rd >= 0real && (rn / rd) * (rn / rd) == (rn * rn) / (rd * rd))
        by (nonlinear_arith)
        requires
            rn >= 0real,
            rd > 0real,
    ;
}

/// A defined `from_ratio` stands for `num / den`.
pub broadcast proof fn lemma_from_ratio_value(num: i64, den: i64)
    requires
        (#[trigger] Rational::from_ratio_model(num, den)).is_defined(),
    ensures
        den != 0,
        Rational::from_ratio_model(num, den).value() == num as real / den as real,
{
    lemma_ratio_value(num as int, den as int);
}

/// Whether some fraction of 64-bit numerator and positive 64-bit
/// denominator equals `x`.
pub open spec fn is_representable(x: real) -> bool {
    exists|n: i64, d: i64| d > 0 && x == #[trigger] fraction_value(n, d)
}

/// The real number `n / d`.
pub open spec fn fraction_value(n: i64, d: i64) -> real {
    n as real / d as real
}

/// Two fractions that are the same real agree by cross-multiplication.
pub proof fn lemma_fraction_eq_converse(n: int, d: int, m: int, e: int)
    requires
        d != 0,
        e != 0,
        n as real / d as real == m as real / e as real,
    ensures
        n * e == m * d,
{
    lemma_real_of_product(n, e);
    lemma_real_of_product(m, d);
    let nr = n as real;
    let dr = d as real;
    let mr = m as real;
    let er = e as real;
    assert(nr * er == mr * dr) by (nonlinear_arith)
        requires
            dr != 0real,
            er != 0real,
            nr / dr == mr / er,
    ;
}

/// `lowest(n, d)` is defined if and only if `n / d` is representable.
pub proof fn lemma_lowest_is_defined_iff(n: int, d: int)
    requires
        d > 0,
    ensures
        lowest(n, d).is_defined() <==> is_representable(n as real / d as real),
{
    lemma_lowest_is_defined_iff_representable(n, d);
    if lowest(n, d).is_defined() {
        let l = lowest(n, d);
        lemma_lowest_value(n, d);
        assert(l.value() == fraction_value(l.num, l.den));
    }
    if is_representable(n as real / d as real) {
        let (n2, d2) = choose|n2: i64, d2: i64|
            d2 > 0 && n as real / d as real == #[trigger] fraction_value(n2, d2);
        lemma_fraction_eq_converse(n2 as int, d2 as int, n, d);
        assert(same_fraction(n2 as int, d2 as int, n, d));
    }
}

/// `ratio(n, d)` is defined if and only if `d` is not zero and `n / d` is
/// representable.
pub proof fn lemma_ratio_is_defined_iff(n: int, d: int)
    ensures
        ratio(n, d).is_defined() <==> d != 0 && is_representable(n as real / d as real),
{
    if d < 0 {
        lemma_lowest_is_defined_iff(-n, -d);
        assert((-n) * d == n * (-d)) by (nonlinear_arith);
        lemma_fraction_eq(-n, -d, n, d);
    } else if d > 0 {
        lemma_lowest_is_defined_iff(n, d);
    }
}

/// A sum is defined if and only if both operands are and the real sum is
/// representable.
pub proof fn lemma_add_is_defined_iff(a: Rational, b: Rational)
    ensures
        a.add_model(b).is_defined() <==> a.is_defined() && b.is_defined() && is_representable(
            a.value() + b.value(),
        ),
{
    if a.is_defined() && b.is_defined() {
        lemma_real_of_product(a.num as int, b.den as int);
        lemma_real_of_product(b.num as int, a.den as int);
        lemma_real_of_product(a.den as int, b.den as int);
        let an = a.num as real;
        let ad = a.den as real;
        let bn = b.num as real;
        let bd = b.den as real;
        assert((an * bd + bn * ad) / (ad * bd) == an / ad + bn / bd) by (nonlinear_arith)
            requires
                ad != 0real,
                bd != 0real,
        ;
        assert(a.den * b.den > 0) by (nonlinear_arith)
            requires
                a.den > 0,
                b.den > 0,
        ;
        lemma_lowest_is_defined_iff(a.num * b.den + b.num * a.den, a.den * b.den);
    }
}

/// A difference is defined if and only if both operands are and the real
/// difference is representable.
pub proof fn lemma_sub_is_defined_iff(a: Rational, b: Rational)
    ensures
        a.sub_model(b).is_defined() <==> a.is_defined() && b.is_defined() && is_representable(
            a.value() - b.value(),
        ),
{
    if a.is_defined() && b.is_defined() {
        lemma_real_of_product(a.num as int, b.den as int);
        lemma_real_of_product(b.num as int, a.den as int);
        lemma_real_of_product(a.den as int, b.den as int);
        let an = a.num as real;
        let ad = a.den as real;
        let bn = b.num as real;
        let bd = b.den as real;
        assert((an * bd - bn * ad) / (ad * bd) == an / ad - bn / bd) by (nonlinear_arith)
            requires
                ad != 0real,
                bd != 0real,
        ;
        assert(a.den * b.den > 0) by (nonlinear_arith)
            requires
                a.den > 0,
                b.den > 0,
        ;
        lemma_lowest_is_defined_iff(a.num * b.den - b.num * a.den, a.den * b.den);
    }
}

/// A product is defined if and only if both operands are and the real
/// product is representable.
pub proof fn lemma_mul_is_defined_iff(a: Rational, b: Rational)
    ensures
        a.mul_model(b).is_defined() <==> a.is_defined() && b.is_defined() && is_representable(
            a.value() * b.value(),
        ),
{
    if a.is_defined() && b.is_defined() {
        lemma_real_of_product(a.num as int, b.num as int);
        lemma_real_of_product(a.den as int, b.den as int);
        let an = a.num as real;
        let ad = a.den as real;
        let bn = b.num as real;
        let bd = b.den as real;
        assert((an * bn) / (ad * bd) == (an / ad) * (bn / bd)) by (nonlinear_arith)
            requires
                ad != 0real,
                bd != 0real,
        ;
        assert(a.den * b.den > 0) by (nonlinear_arith)
            requires
                a.den > 0,
                b.den > 0,
        ;
        lemma_lowest_is_defined_iff(a.num * b.num, a.den * b.den);
    }
}

/// A quotient is defined if and only if both operands are, the divisor is
/// not zero, and the real quotient is representable.
pub proof fn lemma_div_is_defined_iff(a: Rational, b: Rational)
    ensures
        a.div_model(b).is_defined() <==> a.is_defined() && b.is_defined() && b.num != 0
            && is_representable(a.value() / b.value()),
{
    if a.is_defined() && b.is_defined() {
        lemma_real_of_product(a.num as int, b.den as int);
        lemma_real_of_product(b.num as int, a.den as int);
        assert(b.num != 0 <==> b.num * a.den != 0) by (nonlinear_arith)
            requires
                a.den > 0,
        ;
        if b.num != 0 {
            let an = a.num as real;
            let ad = a.den as real;
            let bn = b.num as real;
            let bd = b.den as real;
            assert((an * bd) / (bn * ad) == (an / ad) / (bn / bd)) by (nonlinear_arith)
                requires
                    ad != 0real,
                    bd != 0real,
                    bn != 0real,
            ;
        }
        lemma_ratio_is_defined_iff(a.num * b.den, b.num * a.den);
    }
}

/// `from_ratio(num, den)` is defined if and only if `den` is not zero and
/// `num / den` is representable. It is whenever `den` is positive.
pub proof fn lemma_from_ratio_is_defined_iff(num: i64, den: i64)
    ensures
        Rational::from_ratio_model(num, den).is_defined() <==> den != 0 && is_representable(
            num as real / den as real,
        ),
        den > 0 ==> Rational::from_ratio_model(num, den).is_defined(),
{
    lemma_ratio_is_defined_iff(num as int, den as int);
    if den > 0 {
        assert(fraction_value(num, den) == num as real / den as real);
    }
}

/// What every defined result stands for.
pub broadcast group group_rational_values {
    lemma_add_value,
    lemma_sub_value,
    lemma_mul_value,
    lemma_div_value,
    lemma_sqrt_value,
    lemma_from_ratio_value,
}

} // verus!
