//! Fractions in lowest terms: they are the least of their value, and a
//! fraction has 64-bit lowest terms exactly when some 64-bit fraction
//! equals it.

use crate::rational::{gcd, lemma_gcd_cofactors, lowest, magnitude, ratio};
use vstd::prelude::*;

verus! {

/// `(n2, d2)` is a fraction with a positive denominator that equals
/// `n / d`.
pub open spec fn same_fraction(n2: int, d2: int, n: int, d: int) -> bool {
    d2 > 0 && n2 * d == n * d2
}

/// Bezout's identity: the result holds `x` and `y` with
/// `a * x + b * y == gcd(a, b)`.
pub proof fn lemma_bezout(a: nat, b: nat) -> (xy: (int, int))
    ensures
        a * xy.0 + b * xy.1 == gcd(a, b),
    decreases a,
{
    if a == 0 {
        (0, 1)
    } else {
        let k = (b / a) as int;
        let r = b % a;
        let (x1, y1) = lemma_bezout(r, a);
        assert(b == a * k + r) by (nonlinear_arith)
            requires
                a > 0,
                r == b % a,
                k == b / a,
        ;
        assert(a * (y1 - k * x1) + b * x1 == r * x1 + a * y1) by (nonlinear_arith)
            requires
                b == a * k + r,
        ;
        (y1 - k * x1, x1)
    }
}

/// Two numbers of which a combination is one have no common divisor but
/// one.
pub proof fn lemma_coprime(a: nat, b: nat, x: int, y: int)
    requires
        a * x + b * y == 1,
    ensures
        gcd(a, b) == 1,
{
    let g = gcd(a, b) as int;
    let (pc, qc) = lemma_gcd_cofactors(a, b);
    assert(g * (pc * x + qc * y) == a * x + b * y) by (nonlinear_arith)
        requires
            a == g * pc,
            b == g * qc,
    ;
    assert(g == 1) by (nonlinear_arith)
        requires
            g * (pc * x + qc * y) == 1,
            g >= 0,
    ;
}

/// The numerator and the denominator of a defined number in lowest terms:
/// the same fraction, of the same sign.
pub proof fn lemma_lowest_parts(n: int, d: int)
    requires
        d > 0,
        lowest(n, d).is_defined(),
    ensures
        lowest(n, d).num * d == n * lowest(n, d).den,
        lowest(n, d).num >= 0 <==> n >= 0,
        lowest(n, d) == ratio(n, d),
{
    let l = lowest(n, d);
    let g = gcd(magnitude(n), magnitude(d)) as int;
    let (p, q) = lemma_gcd_cofactors(magnitude(n), magnitude(d));
    assert(magnitude(n) as int / g == p && d / g == q) by (nonlinear_arith)
        requires
            g > 0,
            magnitude(n) as int == g * p,
            d == g * q,
    ;
    assert(l.num * d == n * l.den) by (nonlinear_arith)
        requires
            l.den == q,
            d == g * q,
            (n < 0 ==> l.num == -p && n == -(g * p)),
            (n >= 0 ==> l.num == p && n == g * p),
    ;
    assert(n < 0 ==> p > 0) by (nonlinear_arith)
        requires
            n < 0 ==> n == -(g * p),
            g > 0,
    ;
}

/// The numerator and the denominator of a fraction in lowest terms, and
/// what every other fraction of the same value is: a multiple of them.
proof fn lemma_multiple_of_lowest(n: int, d: int, n2: int, d2: int) -> (k: int)
    requires
        d > 0,
        same_fraction(n2, d2, n, d),
    ensures
        k >= 1,
        d2 == (d / (gcd(magnitude(n), magnitude(d)) as int)) * k,
        magnitude(n2) == (magnitude(n) as int / (gcd(magnitude(n), magnitude(d)) as int)) * k,
        n < 0 <==> n2 < 0,
{
    let a = magnitude(n) as int;
    let a2 = magnitude(n2) as int;
    let g = gcd(magnitude(n), magnitude(d)) as int;
    let (pn, qn) = lemma_gcd_cofactors(magnitude(n), magnitude(d));
    let p = pn as int;
    let q = qn as int;
    let (x, y) = lemma_bezout(magnitude(n), magnitude(d));
    assert(a / g == p && d / g == q && q > 0) by (nonlinear_arith)
        requires
            g > 0,
            d > 0,
            a == g * p,
            d == g * q,
    ;
    assert(g * (p * x + q * y) == a * x + d * y) by (nonlinear_arith)
        requires
            a == g * p,
            d == g * q,
    ;
    assert(p * x + q * y == 1) by (nonlinear_arith)
        requires
            g * (p * x + q * y) == g,
            g > 0,
    ;
    assert((n < 0 <==> n2 < 0) && a2 * d == a * d2) by (nonlinear_arith)
        requires
            d > 0,
            d2 > 0,
            n2 * d == n * d2,
            a == if n < 0 {
                -n
            } else {
                n
            },
            a2 == if n2 < 0 {
                -n2
            } else {
                n2
            },
    ;
    assert(a2 * q == p * d2) by (nonlinear_arith)
        requires
            a2 * d == a * d2,
            a == g * p,
            d == g * q,
            g > 0,
    ;
    let k = a2 * x + d2 * y;
    assert(d2 == q * k) by (nonlinear_arith)
        requires
            p * x + q * y == 1,
            a2 * q == p * d2,
            k == a2 * x + d2 * y,
    ;
    assert(k >= 1) by (nonlinear_arith)
        requires
            d2 == q * k,
            d2 > 0,
            q > 0,
    ;
    assert(a2 == p * k) by (nonlinear_arith)
        requires
            a2 * q == p * d2,
            d2 == q * k,
            q > 0,
    ;
    k
}

/// Lowest terms are the least: no fraction of the same value has a smaller
/// denominator or a numerator of smaller magnitude.
pub proof fn lemma_lowest_is_least(n: int, d: int, n2: int, d2: int)
    requires
        d > 0,
        same_fraction(n2, d2, n, d),
    ensures
        0 < d / (gcd(magnitude(n), magnitude(d)) as int) <= d2,
        0 <= magnitude(n) as int / (gcd(magnitude(n), magnitude(d)) as int) <= magnitude(n2),
        n < 0 <==> n2 < 0,
{
    let k = lemma_multiple_of_lowest(n, d, n2, d2);
    let p = magnitude(n) as int / (gcd(magnitude(n), magnitude(d)) as int);
    let q = d / (gcd(magnitude(n), magnitude(d)) as int);
    let (pn, qn) = lemma_gcd_cofactors(magnitude(n), magnitude(d));
    assert(q > 0 && p >= 0) by (nonlinear_arith)
        requires
            d2 == q * k,
            magnitude(n2) == p * k,
            k >= 1,
            d2 > 0,
    ;
    assert(q <= q * k && p <= p * k) by (nonlinear_arith)
        requires
            k >= 1,
            q > 0,
            p >= 0,
    ;
}

/// `lowest(n, d)` is undefined only where no fraction of 64-bit numerator
/// and denominator equals `n / d`: it is defined if and only if there is
/// one.
pub proof fn lemma_lowest_is_defined_iff_representable(n: int, d: int)
    requires
        d > 0,
    ensures
        lowest(n, d).is_defined() <==> exists|n2: int, d2: int|
            i64::MIN <= n2 <= i64::MAX && d2 <= i64::MAX && #[trigger] same_fraction(n2, d2, n, d),
{
    let l = lowest(n, d);
    if l.is_defined() {
        lemma_lowest_parts(n, d);
        assert(same_fraction(l.num as int, l.den as int, n, d));
    }
    if exists|n2: int, d2: int|
        i64::MIN <= n2 <= i64::MAX && d2 <= i64::MAX && #[trigger] same_fraction(n2, d2, n, d) {
        let (n2, d2) = choose|n2: int, d2: int|
            i64::MIN <= n2 <= i64::MAX && d2 <= i64::MAX && #[trigger] same_fraction(n2, d2, n, d);
        lemma_lowest_is_least(n, d, n2, d2);
    }
}

/// A defined `lowest(n, d)` is in lowest terms: its numerator and its
/// denominator have no common divisor but one.
pub proof fn lemma_lowest_is_reduced(n: int, d: int)
    requires
        lowest(n, d).is_defined(),
    ensures
        gcd(magnitude(lowest(n, d).num as int), magnitude(lowest(n, d).den as int)) == 1,
{
    let l = lowest(n, d);
    let g = gcd(magnitude(n), magnitude(d)) as int;
    let (pn, qn) = lemma_gcd_cofactors(magnitude(n), magnitude(d));
    let p = pn as int;
    let q = qn as int;
    let (x, y) = lemma_bezout(magnitude(n), magnitude(d));
    let a = magnitude(n) as int;
    assert(a / g == p && d / g == q && q > 0) by (nonlinear_arith)
        requires
            g > 0,
            d > 0,
            a == g * p,
            d == g * q,
    ;
    assert(g * (p * x + q * y) == a * x + d * y) by (nonlinear_arith)
        requires
            a == g * p,
            d == g * q,
    ;
    assert(p * x + q * y == 1) by (nonlinear_arith)
        requires
            g * (p * x + q * y) == g,
            g > 0,
    ;
    assert(magnitude(l.num as int) == pn && magnitude(l.den as int) == qn);
    let g2 = gcd(pn, qn) as int;
    let (pc, qc) = lemma_gcd_cofactors(pn, qn);
    assert(g2 * (pc * x + qc * y) == p * x + q * y) by (nonlinear_arith)
        requires
            p == g2 * pc,
            q == g2 * qc,
    ;
    assert(g2 == 1) by (nonlinear_arith)
        requires
            g2 * (pc * x + qc * y) == 1,
            g2 >= 0,
    ;
}

} // verus!
