//! Exact rational numbers in 64-bit lowest terms.
//!
//! A [`Rational`] is either a fraction `num / den` with `den > 0`, or
//! undefined (`den <= 0`). Every operation computes the exact result in
//! lowest terms; where that result has no 64-bit numerator and denominator,
//! or an operand is undefined, or a division is by zero, or a root is not
//! rational, the result is undefined. An undefined operand makes every
//! result undefined, the way a not-a-number poisons floating-point
//! arithmetic. No operation panics or overflows.
//!
//! The models of the operations are stated over the numerator and the
//! denominator. What they mean over the real numbers is proved in
//! [`rational_laws`](crate::rational_laws),
//! [`lowest_terms`](crate::lowest_terms) and
//! [`square_roots`](crate::square_roots): a result is defined exactly where
//! the operands are and the real result is a fraction of 64 bits, and it
//! then stands for the real result.

use crate::scalar::Scalar;
use vstd::prelude::*;

verus! {

/// The greatest common divisor, by Euclid's algorithm. `gcd(0, 0) == 0`.
pub open spec fn gcd(a: nat, b: nat) -> nat
    decreases a,
{
    if a == 0 {
        b
    } else {
        gcd(b % a, a)
    }
}

/// The magnitude of `x`.
pub open spec fn magnitude(x: int) -> nat {
    if x < 0 {
        (-x) as nat
    } else {
        x as nat
    }
}

/// An exact rational number, or undefined.
#[derive(Clone, Copy, Debug, PartialEq, Eq, Structural)]
pub struct Rational {
    /// The numerator.
    pub num: i64,
    /// The denominator, positive in a number.
    pub den: i64,
}

/// The undefined value that every operation returns for "no result".
pub open spec fn undefined() -> Rational {
    Rational { num: 0, den: 0 }
}

/// The fraction `n / d` in lowest terms for `d > 0`, or undefined where the
/// lowest terms do not fit in 64 bits.
pub open spec fn lowest(n: int, d: int) -> Rational {
    let g = gcd(magnitude(n), magnitude(d)) as int;
    let q = magnitude(n) as int / g;
    let num = if n < 0 {
        -q
    } else {
        q
    };
    let den = d / g;
    if d > 0 && i64::MIN <= num <= i64::MAX && den <= i64::MAX {
        Rational { num: num as i64, den: den as i64 }
    } else {
        undefined()
    }
}

/// The fraction `n / d` in lowest terms with a positive denominator, or
/// undefined where `d == 0` or the lowest terms do not fit in 64 bits.
pub open spec fn ratio(n: int, d: int) -> Rational {
    if d < 0 {
        lowest(-n, -d)
    } else {
        lowest(n, d)
    }
}

/// Whether `r` is the integer square root of `n`.
pub open spec fn is_isqrt(n: nat, r: nat) -> bool {
    r * r <= n < (r + 1) * (r + 1)
}

/// The integer square root: the largest `r` with `r * r <= n`.
pub open spec fn isqrt(n: nat) -> nat {
    choose|r: nat| is_isqrt(n, r)
}

impl Rational {
    /// Whether this is a number.
    pub open spec fn is_defined(self) -> bool {
        self.den > 0
    }

    /// The real number that a defined value stands for.
    pub open spec fn value(self) -> real {
        self.num as real / self.den as real
    }
}

/// `gcd(a, b)` divides both `a` and `b`: the result holds the two cofactors.
pub proof fn lemma_gcd_cofactors(a: nat, b: nat) -> (pq: (nat, nat))
    ensures
        a == gcd(a, b) * pq.0,
        b == gcd(a, b) * pq.1,
        (a > 0 || b > 0) ==> gcd(a, b) > 0,
    decreases a,
{
    if a == 0 {
        (0, 1)
    } else {
        let g = gcd(a, b);
        let r = b % a;
        let k = b / a;
        let (pr, qr) = lemma_gcd_cofactors(r, a);
        assert(b == a * k + r) by (nonlinear_arith)
            requires
                a > 0,
                r == b % a,
                k == b / a,
        ;
        assert(b == g * (qr * k + pr)) by (nonlinear_arith)
            requires
                b == a * k + r,
                a == g * qr,
                r == g * pr,
        ;
        (qr, qr * k + pr)
    }
}

/// Euclid's algorithm on machine words.
fn gcd_u128(a: u128, b: u128) -> (g: u128)
    ensures
        g == gcd(a as nat, b as nat),
{
    let mut x: u128 = a;
    let mut y: u128 = b;
    while x != 0
        invariant
            gcd(x as nat, y as nat) == gcd(a as nat, b as nat),
        decreases x,
    {
        let t: u128 = y % x;
        y = x;
        x = t;
    }
    y
}

/// Brings `n / d` to lowest terms.
fn reduce(n: i128, d: i128) -> (r: Rational)
    requires
        d > 0,
        n > i128::MIN,
    ensures
        r == lowest(n as int, d as int),
{
    let an: u128 = if n < 0 {
        (-n) as u128
    } else {
        n as u128
    };
    let ad: u128 = d as u128;
    let g: u128 = gcd_u128(an, ad);
    proof {
        lemma_gcd_cofactors(an as nat, ad as nat);
    }
    let qn: u128 = an / g;
    let qd: u128 = ad / g;
    if qd > 0x7fff_ffff_ffff_ffff {
        return Rational { num: 0, den: 0 };
    }
    if n < 0 {
        if qn > 0x8000_0000_0000_0000 {
            return Rational { num: 0, den: 0 };
        }
        let m: i128 = -(qn as i128);
        Rational { num: m as i64, den: qd as i64 }
    } else {
        if qn > 0x7fff_ffff_ffff_ffff {
            return Rational { num: 0, den: 0 };
        }
        Rational { num: qn as i64, den: qd as i64 }
    }
}

/// Brings `n / d` to lowest terms with a positive denominator.
fn reduce_signed(n: i128, d: i128) -> (r: Rational)
    requires
        n > i128::MIN,
        d > i128::MIN,
    ensures
        r == ratio(n as int, d as int),
{
    if d < 0 {
        reduce(-n, -d)
    } else if d == 0 {
        Rational { num: 0, den: 0 }
    } else {
        reduce(n, d)
    }
}

/// A product of two 64-bit integers has a magnitude of at most `2^126`.
proof fn lemma_product_bound(x: int, y: int)
    requires
        i64::MIN <= x <= i64::MAX,
        i64::MIN <= y <= i64::MAX,
    ensures
        -0x4000_0000_0000_0000_0000_0000_0000_0000 <= x * y
            <= 0x4000_0000_0000_0000_0000_0000_0000_0000,
{
    assert(-0x4000_0000_0000_0000_0000_0000_0000_0000 <= x * y
        <= 0x4000_0000_0000_0000_0000_0000_0000_0000) by (nonlinear_arith)
        requires
            -0x8000_0000_0000_0000 <= x <= 0x8000_0000_0000_0000,
            -0x8000_0000_0000_0000 <= y <= 0x8000_0000_0000_0000,
    ;
}

/// A product with a positive 64-bit factor stays strictly inside `2^126`.
proof fn lemma_product_bound_strict(x: int, y: int)
    requires
        i64::MIN <= x <= i64::MAX,
        0 < y <= i64::MAX,
    ensures
        -0x4000_0000_0000_0000_0000_0000_0000_0000 < x * y
            < 0x4000_0000_0000_0000_0000_0000_0000_0000,
        x > 0 ==> x * y > 0,
{
    assert(-0x4000_0000_0000_0000_0000_0000_0000_0000 < x * y
        < 0x4000_0000_0000_0000_0000_0000_0000_0000 && (x > 0 ==> x * y > 0))
        by (nonlinear_arith)
        requires
            -0x8000_0000_0000_0000 <= x <= 0x8000_0000_0000_0000,
            0 < y < 0x8000_0000_0000_0000,
    ;
}

/// The square of a 32-bit number fits in 64 bits.
proof fn lemma_root_square_bound(r: int)
    requires
        0 <= r <= 0xffff_ffff,
    ensures
        r * r <= 0xffff_fffe_0000_0001,
{
    assert(r * r <= 0xffff_fffe_0000_0001) by (nonlinear_arith)
        requires
            0 <= r <= 0xffff_ffff,
    ;
}

/// A number has one integer square root only.
pub proof fn lemma_isqrt_unique(n: nat, r: nat)
    requires
        is_isqrt(n, r),
    ensures
        isqrt(n) == r,
{
    let s = isqrt(n);
    assert(is_isqrt(n, s));
    assert(s == r) by (nonlinear_arith)
        requires
            r * r <= n < (r + 1) * (r + 1),
            s * s <= n < (s + 1) * (s + 1),
    ;
}

/// The integer square root of a machine word, by bisection.
fn isqrt_u64(x: u64) -> (r: u64)
    ensures
        r == isqrt(x as nat),
        r <= 0xffff_ffff,
{
    let mut lo: u128 = 0;
    let mut hi: u128 = 0x1_0000_0000;
    while hi - lo > 1
        invariant
            lo < hi <= 0x1_0000_0000,
            lo * lo <= x < hi * hi,
        decreases hi - lo,
    {
        let mid: u128 = lo + (hi - lo) / 2;
        assert(mid * mid < 0x1_0000_0000_0000_0000) by (nonlinear_arith)
            requires
                mid < 0x1_0000_0000,
        ;
        if mid * mid <= x as u128 {
            lo = mid;
        } else {
            hi = mid;
        }
    }
    proof {
        lemma_isqrt_unique(x as nat, lo as nat);
    }
    lo as u64
}

impl Rational {
    /// The fraction `num / den` in lowest terms; undefined for `den == 0`.
    pub fn new(num: i64, den: i64) -> (r: Rational)
        ensures
            r == ratio(num as int, den as int),
    {
        reduce_signed(num as i128, den as i128)
    }

    /// Whether this is a number.
    pub fn defined(&self) -> (b: bool)
        ensures
            b == self.is_defined(),
    {
        self.den > 0
    }
}

impl Scalar for Rational {
    /// `num / den` in lowest terms.
    open spec fn from_ratio_model(num: i64, den: i64) -> Self {
        ratio(num as int, den as int)
    }

    /// The sum of two numbers, in lowest terms.
    open spec fn add_model(self, rhs: Self) -> Self {
        if self.is_defined() && rhs.is_defined() {
            lowest(self.num * rhs.den + rhs.num * self.den, self.den * rhs.den)
        } else {
            undefined()
        }
    }

    /// The difference of two numbers, in lowest terms.
    open spec fn sub_model(self, rhs: Self) -> Self {
        if self.is_defined() && rhs.is_defined() {
            lowest(self.num * rhs.den - rhs.num * self.den, self.den * rhs.den)
        } else {
            undefined()
        }
    }

    /// The product of two numbers, in lowest terms.
    open spec fn mul_model(self, rhs: Self) -> Self {
        if self.is_defined() && rhs.is_defined() {
            lowest(self.num * rhs.num, self.den * rhs.den)
        } else {
            undefined()
        }
    }

    /// The quotient of two numbers, in lowest terms with a positive
    /// denominator; undefined for the divisor zero.
    open spec fn div_model(self, rhs: Self) -> Self {
        if self.is_defined() && rhs.is_defined() {
            ratio(self.num * rhs.den, rhs.num * self.den)
        } else {
            undefined()
        }
    }

    /// The root of the numerator over the root of the denominator, taken
    /// of the lowest terms of a number that is not negative, where both are
    /// squares.
    open spec fn sqrt_model(self) -> Self {
        let l = ratio(self.num as int, self.den as int);
        let rn = isqrt(l.num as nat);
        let rd = isqrt(l.den as nat);
        if self.is_defined() && l.is_defined() && l.num >= 0 && rn * rn == l.num && rd * rd
            == l.den {
            Rational { num: rn as i64, den: rd as i64 }
        } else {
            undefined()
        }
    }

    /// The fraction `num / den` in lowest terms; undefined for `den == 0`.
    fn from_ratio(num: i64, den: i64) -> (r: Self) {
        Rational::new(num, den)
    }

    /// The exact sum.
    fn add(&self, rhs: &Self) -> (r: Self) {
        if self.den <= 0 || rhs.den <= 0 {
            return Rational { num: 0, den: 0 };
        }
        proof {
            lemma_product_bound_strict(self.num as int, rhs.den as int);
            lemma_product_bound_strict(rhs.num as int, self.den as int);
            lemma_product_bound_strict(self.den as int, rhs.den as int);
        }
        let n: i128 = (self.num as i128) * (rhs.den as i128)
            + (rhs.num as i128) * (self.den as i128);
        let d: i128 = (self.den as i128) * (rhs.den as i128);
        reduce(n, d)
    }

    /// The exact difference.
    fn sub(&self, rhs: &Self) -> (r: Self) {
        if self.den <= 0 || rhs.den <= 0 {
            return Rational { num: 0, den: 0 };
        }
        proof {
            lemma_product_bound_strict(self.num as int, rhs.den as int);
            lemma_product_bound_strict(rhs.num as int, self.den as int);
            lemma_product_bound_strict(self.den as int, rhs.den as int);
        }
        let n: i128 = (self.num as i128) * (rhs.den as i128)
            - (rhs.num as i128) * (self.den as i128);
        let d: i128 = (self.den as i128) * (rhs.den as i128);
        reduce(n, d)
    }

    /// The exact product.
    fn mul(&self, rhs: &Self) -> (r: Self) {
        if self.den <= 0 || rhs.den <= 0 {
            return Rational { num: 0, den: 0 };
        }
        proof {
            lemma_product_bound(self.num as int, rhs.num as int);
            lemma_product_bound_strict(self.den as int, rhs.den as int);
        }
        let n: i128 = (self.num as i128) * (rhs.num as i128);
        let d: i128 = (self.den as i128) * (rhs.den as i128);
        reduce(n, d)
    }

    /// The exact quotient; undefined for a zero divisor.
    fn div(&self, rhs: &Self) -> (r: Self) {
        if self.den <= 0 || rhs.den <= 0 {
            return Rational { num: 0, den: 0 };
        }
        proof {
            lemma_product_bound_strict(self.num as int, rhs.den as int);
            lemma_product_bound_strict(rhs.num as int, self.den as int);
        }
        let n: i128 = (self.num as i128) * (rhs.den as i128);
        let d: i128 = (rhs.num as i128) * (self.den as i128);
        reduce_signed(n, d)
    }

    /// The exact square root that is not negative; undefined where no
    /// fraction is the root.
    fn sqrt(&self) -> (r: Self) {
        let l = Rational::new(self.num, self.den);
        if self.den <= 0 || l.den <= 0 || l.num < 0 {
            return Rational { num: 0, den: 0 };
        }
        let rn: u64 = isqrt_u64(l.num as u64);
        let rd: u64 = isqrt_u64(l.den as u64);
        proof {
            lemma_root_square_bound(rn as int);
            lemma_root_square_bound(rd as int);
        }
        if rn * rn == l.num as u64 && rd * rd == l.den as u64 {
            Rational { num: rn as i64, den: rd as i64 }
        } else {
            Rational { num: 0, den: 0 }
        }
    }
}

} // verus!
