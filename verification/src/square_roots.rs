//! When a [`Rational`] has a square root: exactly when some fraction,
//! of whatever size, squares to it.

use crate::lowest_terms::{
    lemma_bezout, lemma_coprime, lemma_lowest_is_defined_iff_representable, lemma_lowest_is_reduced,
    lemma_lowest_parts, same_fraction,
};
use crate::rational::{gcd, isqrt, lemma_gcd_cofactors, lemma_isqrt_unique, ratio, Rational};
use crate::scalar::Scalar;
use vstd::prelude::*;

verus! {

/// Where a combination of `a` and `b` is one, so is one of `a * a` and
/// `b`: the square of the combination, sorted.
proof fn lemma_combination_squared(a: int, b: int, x: int, y: int)
    requires
        a * x + b * y == 1,
    ensures
        (a * a) * (x * x) + b * (2 * (a * x) * y + (b * y) * y) == 1,
{
    let u = a * x;
    let v = b * y;
    assert((u + v) * (u + v) == u * u + 2 * u * v + v * v) by (nonlinear_arith);
    assert(u * u == (a * a) * (x * x)) by (nonlinear_arith)
        requires
            u == a * x,
    ;
    assert(b * (2 * u * y) == 2 * u * v) by (nonlinear_arith)
        requires
            v == b * y,
    ;
    assert(b * (v * y) == v * v) by (nonlinear_arith)
        requires
            v == b * y,
    ;
    assert(b * (2 * u * y + v * y) == b * (2 * u * y) + b * (v * y)) by (nonlinear_arith);
}

/// The squares of two numbers without a common divisor have none either.
pub proof fn lemma_squares_are_coprime(a: nat, b: nat)
    requires
        gcd(a, b) == 1,
    ensures
        gcd(a * a, b * b) == 1,
{
    let (x, y) = lemma_bezout(a, b);
    lemma_combination_squared(a as int, b as int, x, y);
    let x1 = x * x;
    let y1 = 2 * (a * x) * y + (b * y) * y;
    let aa = (a * a) as int;
    assert(b * y1 + aa * x1 == 1);
    lemma_combination_squared(b as int, aa, y1, x1);
    let y2 = y1 * y1;
    let x2 = 2 * (b * y1) * x1 + (aa * x1) * x1;
    assert((a * a) * x2 + (b * b) * y2 == 1);
    lemma_coprime(a * a, b * b, x2, y2);
}

/// `p / q` is a square root of `a`: not negative, and its square is `a`.
pub open spec fn is_square_root(p: int, q: int, a: Rational) -> bool {
    q > 0 && p >= 0 && (p * p) * a.den == a.num * (q * q)
}

/// A fraction in lowest terms that is the square of a fraction in lowest
/// terms is the square of its numerator over the square of its
/// denominator.
proof fn lemma_square_in_lowest_terms(n: int, d: int, p: nat, q: nat)
    requires
        n >= 0,
        d > 0,
        q > 0,
        gcd(n as nat, d as nat) == 1,
        gcd(p, q) == 1,
        (p * p) * d == n * (q * q),
    ensures
        n == p * p,
        d == q * q,
{
    lemma_squares_are_coprime(p, q);
    let pp = (p * p) as int;
    let qq = (q * q) as int;
    assert(qq > 0 && pp >= 0) by (nonlinear_arith)
        requires
            q > 0,
            p >= 0,
            qq == q * q,
            pp == p * p,
    ;
    assert(same_fraction(pp, qq, n, d));
    assert(same_fraction(n, d, pp, qq));
    let k = lemma_multiple(n, d, pp, qq);
    let j = lemma_multiple(pp, qq, n, d);
    assert(k == 1) by (nonlinear_arith)
        requires
            qq == d * k,
            d == qq * j,
            k >= 1,
            j >= 1,
            qq > 0,
    ;
    assert(d * 1 == d && n * 1 == n) by (nonlinear_arith);
}

/// Every fraction equal to one in lowest terms is a multiple of it.
proof fn lemma_multiple(n: int, d: int, n2: int, d2: int) -> (k: int)
    requires
        n >= 0,
        d > 0,
        n2 >= 0,
        gcd(n as nat, d as nat) == 1,
        same_fraction(n2, d2, n, d),
    ensures
        k >= 1,
        d2 == d * k,
        n2 == n * k,
{
    let (x, y) = lemma_bezout(n as nat, d as nat);
    let k = n2 * x + d2 * y;
    assert(d2 == d * k) by (nonlinear_arith)
        requires
            n * x + d * y == 1,
            n2 * d == n * d2,
            k == n2 * x + d2 * y,
    ;
    assert(k >= 1) by (nonlinear_arith)
        requires
            d2 == d * k,
            d2 > 0,
            d > 0,
    ;
    assert(n2 == n * k) by (nonlinear_arith)
        requires
            n2 * d == n * d2,
            d2 == d * k,
            d > 0,
    ;
    k
}

/// A number has a defined square root if and only if it is defined and
/// some fraction is a square root of it.
pub proof fn lemma_sqrt_is_defined_iff(a: Rational)
    ensures
        a.sqrt_model().is_defined() <==> a.is_defined() && exists|p: int, q: int|
            #[trigger] is_square_root(p, q, a),
{
    let l = ratio(a.num as int, a.den as int);
    if a.sqrt_model().is_defined() {
        let r = a.sqrt_model();
        let sn = isqrt(l.num as nat) as int;
        let sd = isqrt(l.den as nat) as int;
        lemma_lowest_parts(a.num as int, a.den as int);
        assert((sn * sn) * a.den == a.num * (sd * sd)) by (nonlinear_arith)
            requires
                sn * sn == l.num,
                sd * sd == l.den,
                l.num * a.den == a.num * l.den,
        ;
        assert(sd > 0) by (nonlinear_arith)
            requires
                sd * sd == l.den,
                l.den > 0,
                sd >= 0,
        ;
        assert(is_square_root(sn, sd, a));
    }
    if a.is_defined() && exists|p: int, q: int| #[trigger] is_square_root(p, q, a) {
        let (p, q) = choose|p: int, q: int| #[trigger] is_square_root(p, q, a);
        // The number itself is a fraction of 64 bits, so its lowest terms are defined.
        assert(same_fraction(a.num as int, a.den as int, a.num as int, a.den as int));
        lemma_lowest_is_defined_iff_representable(a.num as int, a.den as int);
        lemma_lowest_parts(a.num as int, a.den as int);
        lemma_lowest_is_reduced(a.num as int, a.den as int);
        // The root in lowest terms.
        let g = gcd(p as nat, q as nat) as int;
        let (p0, q0) = lemma_gcd_cofactors(p as nat, q as nat);
        let (x, y) = lemma_bezout(p as nat, q as nat);
        assert(g * (p0 * x + q0 * y) == p * x + q * y) by (nonlinear_arith)
            requires
                p == g * p0,
                q == g * q0,
        ;
        assert(p0 * x + q0 * y == 1 && q0 > 0) by (nonlinear_arith)
            requires
                g * (p0 * x + q0 * y) == g,
                g > 0,
                q == g * q0,
                q > 0,
        ;
        lemma_coprime(p0, q0, x, y);
        let pp = p0 * p0;
        let qq = q0 * q0;
        assert(p * p == (g * g) * pp && q * q == (g * g) * qq && g * g > 0 && qq > 0 && pp >= 0)
            by (nonlinear_arith)
            requires
                p == g * p0,
                q == g * q0,
                pp == p0 * p0,
                qq == q0 * q0,
                g > 0,
                q0 > 0,
                p0 >= 0,
        ;
        let gg = g * g;
        assert(pp * a.den == a.num * qq) by (nonlinear_arith)
            requires
                (gg * pp) * a.den == a.num * (gg * qq),
                gg > 0,
        ;
        assert(a.num >= 0) by (nonlinear_arith)
            requires
                pp * a.den == a.num * qq,
                a.den > 0,
                pp >= 0,
                qq > 0,
        ;
        assert(pp * l.den == l.num * qq) by (nonlinear_arith)
            requires
                pp * a.den == a.num * qq,
                l.num * a.den == a.num * l.den,
                a.den > 0,
        ;
        lemma_square_in_lowest_terms(l.num as int, l.den as int, p0, q0);
        lemma_isqrt_of_square(p0);
        lemma_isqrt_of_square(q0);
        assert(l.num == p0 * p0 && l.den == q0 * q0);
        assert(isqrt(l.num as nat) == p0 && isqrt(l.den as nat) == q0);
        assert(p0 <= l.num && q0 <= l.den) by (nonlinear_arith)
            requires
                l.num == p0 * p0,
                l.den == q0 * q0,
        ;
        assert(a.sqrt_model().is_defined());
    }
}

/// The integer square root of a square.
proof fn lemma_isqrt_of_square(r: nat)
    ensures
        isqrt(r * r) == r,
{
    assert(r * r < (r + 1) * (r + 1)) by (nonlinear_arith);
    lemma_isqrt_unique(r * r, r);
}

} // verus!
