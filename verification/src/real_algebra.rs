//! Identities of real arithmetic that the laws of the exact model rest on.

use vstd::prelude::*;

verus! {

/// Dividing is multiplying by the reciprocal, and a number times its
/// reciprocal is one.
pub proof fn lemma_reciprocal(x: real, den: real)
    requires
        den != 0real,
    ensures
        x / den == x * (1real / den),
        den * (1real / den) == 1real,
{
    assert(x / den == x * (1real / den) && den * (1real / den) == 1real) by (nonlinear_arith)
        requires
            den != 0real,
    ;
}

/// Multiplication distributes over a difference.
pub proof fn lemma_distribute(a: real, x: real, y: real)
    ensures
        a * (x - y) == a * x - a * y,
{
    assert(a * (x - y) == a * x - a * y) by (nonlinear_arith);
}

/// A product of three factors does not depend on their order or grouping.
pub proof fn lemma_product_of_three(x: real, y: real, z: real)
    ensures
        x * (y * z) == x * y * z,
        x * (z * y) == x * y * z,
        y * (x * z) == x * y * z,
        y * (z * x) == x * y * z,
        z * (x * y) == x * y * z,
        z * (y * x) == x * y * z,
        x * z * y == x * y * z,
        y * x * z == x * y * z,
        y * z * x == x * y * z,
        z * x * y == x * y * z,
        z * y * x == x * y * z,
{
    assert(x * (y * z) == x * y * z && x * (z * y) == x * y * z && y * (x * z) == x * y * z && y
        * (z * x) == x * y * z && z * (x * y) == x * y * z && z * (y * x) == x * y * z) by (nonlinear_arith);
    assert(x * z * y == x * y * z && y * x * z == x * y * z && y * z * x == x * y * z && z * x * y
        == x * y * z && z * y * x == x * y * z) by (nonlinear_arith);
}

/// Twice a product of three factors.
pub proof fn lemma_twice_product(x: real, y: real, z: real)
    ensures
        2real * x * y * z == x * y * z + x * y * z,
{
    assert(2real * x * y * z == x * y * z + x * y * z) by (nonlinear_arith);
}

/// A sum of two terms times a factor.
pub proof fn lemma_distribute_two(p: real, q: real, r: real)
    ensures
        (p + q) * r == p * r + q * r,
        0real * r == 0real,
        1real * r == r,
{
    assert((p + q) * r == p * r + q * r && 0real * r == 0real && 1real * r == r)
        by (nonlinear_arith);
}

/// Two fractions that agree by cross-multiplication are equal.
pub proof fn lemma_cross_multiplied(p: real, q: real, r: real, s: real)
    requires
        q != 0real,
        s != 0real,
        p * s == r * q,
    ensures
        p / q == r / s,
{
    assert(p / q == r / s) by (nonlinear_arith)
        requires
            q != 0real,
            s != 0real,
            p * s == r * q,
    ;
}

/// A product with a zero factor is zero, and a product that is not zero
/// has no zero factor.
pub proof fn lemma_zero_factor(x: real, y: real)
    ensures
        x == 0real || y == 0real <==> x * y == 0real,
{
    assert(x == 0real || y == 0real <==> x * y == 0real) by (nonlinear_arith);
}

/// `u * (p * q - r * s)`, multiplied out.
pub proof fn lemma_expand(u: real, p: real, q: real, r: real, s: real)
    ensures
        u * (p * q - r * s) == u * p * q - u * r * s,
{
    lemma_distribute(u, p * q, r * s);
    lemma_product_of_three(u, p, q);
    lemma_product_of_three(u, r, s);
}

/// A sum of three terms times a factor.
pub proof fn lemma_distribute_three(p: real, q: real, s: real, r: real)
    ensures
        (p + q + s) * r == p * r + q * r + s * r,
{
    assert((p + q + s) * r == p * r + q * r + s * r) by (nonlinear_arith);
}

/// A row times a column whose entries are all divided by `den`.
pub proof fn lemma_row_over_den(
    x0: real,
    x1: real,
    x2: real,
    c0: real,
    c1: real,
    c2: real,
    den: real,
)
    requires
        den != 0real,
    ensures
        x0 * (c0 / den) + x1 * (c1 / den) + x2 * (c2 / den) == (x0 * c0 + x1 * c1 + x2 * c2)
            / den,
{
    let r = 1real / den;
    lemma_reciprocal(c0, den);
    lemma_reciprocal(c1, den);
    lemma_reciprocal(c2, den);
    lemma_reciprocal(x0 * c0 + x1 * c1 + x2 * c2, den);
    lemma_product_of_three(x0, c0, r);
    lemma_product_of_three(x1, c1, r);
    lemma_product_of_three(x2, c2, r);
    lemma_distribute_three(x0 * c0, x1 * c1, x2 * c2, r);
}

/// A factor times a sum of three terms.
pub proof fn lemma_factor_times_three(u: real, p: real, q: real, s: real)
    ensures
        u * (p + q + s) == u * p + u * q + u * s,
{
    assert(u * (p + q + s) == u * p + u * q + u * s) by (nonlinear_arith);
}

/// A row `x` times the product of a matrix `n` and a vector `r` is the
/// product of `x` and `n`, times `r`.
pub proof fn lemma_row_matrix_vector(
    x0: real,
    x1: real,
    x2: real,
    n00: real,
    n01: real,
    n02: real,
    n10: real,
    n11: real,
    n12: real,
    n20: real,
    n21: real,
    n22: real,
    r0: real,
    r1: real,
    r2: real,
)
    ensures
        x0 * (n00 * r0 + n01 * r1 + n02 * r2) + x1 * (n10 * r0 + n11 * r1 + n12 * r2) + x2 * (n20
            * r0 + n21 * r1 + n22 * r2) == (x0 * n00 + x1 * n10 + x2 * n20) * r0 + (x0 * n01 + x1
            * n11 + x2 * n21) * r1 + (x0 * n02 + x1 * n12 + x2 * n22) * r2,
{
    lemma_factor_times_three(x0, n00 * r0, n01 * r1, n02 * r2);
    lemma_factor_times_three(x1, n10 * r0, n11 * r1, n12 * r2);
    lemma_factor_times_three(x2, n20 * r0, n21 * r1, n22 * r2);
    lemma_product_of_three(x0, n00, r0);
    lemma_product_of_three(x0, n01, r1);
    lemma_product_of_three(x0, n02, r2);
    lemma_product_of_three(x1, n10, r0);
    lemma_product_of_three(x1, n11, r1);
    lemma_product_of_three(x1, n12, r2);
    lemma_product_of_three(x2, n20, r0);
    lemma_product_of_three(x2, n21, r1);
    lemma_product_of_three(x2, n22, r2);
    lemma_distribute_three(x0 * n00, x1 * n10, x2 * n20, r0);
    lemma_distribute_three(x0 * n01, x1 * n11, x2 * n21, r1);
    lemma_distribute_three(x0 * n02, x1 * n12, x2 * n22, r2);
}

/// A vector is orthogonal to its cross product with any other.
pub proof fn lemma_orthogonal_to_cross(
    w0: real,
    w1: real,
    w2: real,
    l0: real,
    l1: real,
    l2: real,
)
    ensures
        w0 * (w1 * l2 - w2 * l1) + w1 * (w2 * l0 - w0 * l2) + w2 * (w0 * l1 - w1 * l0) == 0real,
{
    lemma_expand(w0, w1, l2, w2, l1);
    lemma_expand(w1, w2, l0, w0, l2);
    lemma_expand(w2, w0, l1, w1, l0);
    lemma_product_of_three(w0, w1, l2);
    lemma_product_of_three(w0, w2, l1);
    lemma_product_of_three(w1, w2, l0);
}

/// Signs in products and quotients.
pub proof fn lemma_negation(x: real, y: real)
    ensures
        (-x) * (-y) == x * y,
        x * (-y) == -(x * y),
        y != 0real ==> (-x) / y == -(x / y),
{
    assert((-x) * (-y) == x * y && x * (-y) == -(x * y)) by (nonlinear_arith);
    if y != 0real {
        assert((-x) / y == -(x / y)) by (nonlinear_arith)
            requires
                y != 0real,
        ;
    }
}

/// A positive factor keeps the sign of what it multiplies.
pub proof fn lemma_sign_of_product(s: real, u: real)
    requires
        s > 0real,
    ensures
        u > 0real <==> s * u > 0real,
        u < 0real <==> s * u < 0real,
{
    assert((u > 0real <==> s * u > 0real) && (u < 0real <==> s * u < 0real)) by (nonlinear_arith)
        requires
            s > 0real,
    ;
}

/// A positive divisor keeps the sign of what it divides.
pub proof fn lemma_sign_of_quotient(r: real, n: real)
    requires
        n > 0real,
    ensures
        r > 0real <==> r / n > 0real,
        r < 0real <==> r / n < 0real,
{
    assert((r > 0real <==> r / n > 0real) && (r < 0real <==> r / n < 0real)) by (nonlinear_arith)
        requires
            n > 0real,
    ;
}

/// Two numbers that are not negative and have the same square are equal.
pub proof fn lemma_same_square(x: real, y: real)
    requires
        x >= 0real,
        y >= 0real,
        x * x == y * y,
    ensures
        x == y,
{
    assert(x == y) by (nonlinear_arith)
        requires
            x >= 0real,
            y >= 0real,
            x * x == y * y,
    ;
}

/// The square of a scaled quotient.
pub proof fn lemma_square_of_scaled_quotient(s: real, r: real, n: real)
    requires
        n != 0real,
    ensures
        (s * (r / n)) * (s * (r / n)) == (s * s) * ((r * r) * (1real / (n * n))),
{
    let u = r / n;
    let k = 1real / n;
    assert((s * u) * (s * u) == (s * s) * (u * u)) by (nonlinear_arith);
    assert(u * u == (r * r) * (k * k)) by (nonlinear_arith)
        requires
            u == r / n,
            k == 1real / n,
            n != 0real,
    ;
    assert(k * k == 1real / (n * n)) by (nonlinear_arith)
        requires
            k == 1real / n,
            n != 0real,
    ;
}

/// The determinant of the symmetric matrix with rows `(a, b, c)`,
/// `(b, d, e)` and `(c, e, f)`.
pub open spec fn symmetric_det(a: real, b: real, c: real, d: real, e: real, f: real) -> real {
    a * d * f + 2real * b * c * e - a * (e * e) - d * (c * c) - f * (b * b)
}

/// The rows of a symmetric matrix against the columns of its cofactor
/// matrix: the determinant on the diagonal, zero elsewhere.
pub proof fn lemma_symmetric_cofactors(a: real, b: real, c: real, d: real, e: real, f: real)
    ensures
        a * (d * f - e * e) + b * (c * e - b * f) + c * (b * e - c * d) == symmetric_det(
            a,
            b,
            c,
            d,
            e,
            f,
        ),
        a * (c * e - b * f) + b * (a * f - c * c) + c * (b * c - a * e) == 0real,
        a * (b * e - c * d) + b * (b * c - a * e) + c * (a * d - b * b) == 0real,
        b * (d * f - e * e) + d * (c * e - b * f) + e * (b * e - c * d) == 0real,
        b * (c * e - b * f) + d * (a * f - c * c) + e * (b * c - a * e) == symmetric_det(
            a,
            b,
            c,
            d,
            e,
            f,
        ),
        b * (b * e - c * d) + d * (b * c - a * e) + e * (a * d - b * b) == 0real,
        c * (d * f - e * e) + e * (c * e - b * f) + f * (b * e - c * d) == 0real,
        c * (c * e - b * f) + e * (a * f - c * c) + f * (b * c - a * e) == 0real,
        c * (b * e - c * d) + e * (b * c - a * e) + f * (a * d - b * b) == symmetric_det(
            a,
            b,
            c,
            d,
            e,
            f,
        ),
{
    lemma_expand(a, d, f, e, e);
    lemma_expand(a, c, e, b, f);
    lemma_expand(a, b, e, c, d);
    lemma_expand(b, d, f, e, e);
    lemma_expand(b, c, e, b, f);
    lemma_expand(b, a, f, c, c);
    lemma_expand(b, b, c, a, e);
    lemma_expand(b, b, e, c, d);
    lemma_expand(c, d, f, e, e);
    lemma_expand(c, c, e, b, f);
    lemma_expand(c, b, e, c, d);
    lemma_expand(c, b, c, a, e);
    lemma_expand(c, a, d, b, b);
    lemma_expand(d, c, e, b, f);
    lemma_expand(d, a, f, c, c);
    lemma_expand(d, b, c, a, e);
    lemma_expand(e, b, e, c, d);
    lemma_expand(e, b, c, a, e);
    lemma_expand(e, a, d, b, b);
    lemma_expand(e, c, e, b, f);
    lemma_expand(e, a, f, c, c);
    lemma_expand(f, b, e, c, d);
    lemma_expand(f, b, c, a, e);
    lemma_expand(f, a, d, b, b);
    lemma_product_of_three(a, d, f);
    lemma_product_of_three(a, e, e);
    lemma_product_of_three(a, c, e);
    lemma_product_of_three(a, b, f);
    lemma_product_of_three(a, b, e);
    lemma_product_of_three(a, c, d);
    lemma_product_of_three(b, c, e);
    lemma_product_of_three(b, b, f);
    lemma_product_of_three(b, c, c);
    lemma_product_of_three(b, b, c);
    lemma_product_of_three(b, d, f);
    lemma_product_of_three(b, e, e);
    lemma_product_of_three(b, b, e);
    lemma_product_of_three(b, c, d);
    lemma_product_of_three(b, e, f);
    lemma_product_of_three(b, c, f);
    lemma_product_of_three(c, c, d);
    lemma_product_of_three(c, d, e);
    lemma_product_of_three(c, d, f);
    lemma_product_of_three(c, e, e);
    lemma_product_of_three(c, c, e);
    lemma_product_of_three(a, d, e);
    lemma_product_of_three(a, e, f);
    lemma_product_of_three(d, c, c);
    lemma_product_of_three(f, b, b);
    lemma_twice_product(b, c, e);
}

} // verus!
