//! Laws of the rigid-body model over the exact scalar [`Rational`].

use crate::rational::Rational;
use crate::rational_laws::group_rational_values;
use crate::real_algebra::{
    lemma_cross_multiplied, lemma_distribute, lemma_distribute_two, lemma_orthogonal_to_cross,
    lemma_product_of_three, lemma_row_matrix_vector, lemma_row_over_den,
    lemma_symmetric_cofactors, lemma_zero_factor, symmetric_det,
};
use crate::rigid_body::{
    angular_acceleration_model, angular_momentum_rate_model, inverse_principal_model,
    inverse_symmetric_model, symmetric_cofactors_model, symmetric_den_model, RigidBody,
};
use crate::vector::{cross_model, dot_model, mat_vec_model, rows, sub_model};
use crate::scalar::Scalar;
use vstd::prelude::*;

verus! {

/// The matrix equals its transpose.
pub open spec fn is_symmetric(m: Seq<Seq<Rational>>) -> bool {
    &&& m[1][0] == m[0][1]
    &&& m[2][0] == m[0][2]
    &&& m[2][1] == m[1][2]
}

/// The matrix is zero off its diagonal.
pub open spec fn is_diagonal(m: Seq<Seq<Rational>>) -> bool {
    &&& m[0][1].is_defined() && m[0][1].num == 0
    &&& m[0][2].is_defined() && m[0][2].num == 0
    &&& m[1][2].is_defined() && m[1][2].num == 0
    &&& is_symmetric(m)
}

/// Every entry of the 3x3 matrix is a number.
pub open spec fn is_defined_matrix(m: Seq<Seq<Rational>>) -> bool {
    forall|r: int, c: int| 0 <= r < 3 && 0 <= c < 3 ==> (#[trigger] m[r][c]).is_defined()
}

/// The entry in row `i` and column `j` of the real matrix product of `m`
/// and `n`.
pub open spec fn product_entry(m: Seq<Seq<Rational>>, n: Seq<Seq<Rational>>, i: int, j: int) -> real {
    m[i][0].value() * n[0][j].value() + m[i][1].value() * n[1][j].value() + m[i][2].value()
        * n[2][j].value()
}

/// The entry in row `i` and column `j` of the identity matrix.
pub open spec fn identity_entry(i: int, j: int) -> real {
    if i == j {
        1real
    } else {
        0real
    }
}

/// The real values behind a defined symmetric inverse: the determinant is
/// not zero, and every entry of the inverse is a cofactor over it.
proof fn lemma_inverse_symmetric_values(m: Seq<Seq<Rational>>)
    requires
        is_defined_matrix(inverse_symmetric_model(m)),
    ensures
        ({
            let a = m[0][0].value();
            let b = m[0][1].value();
            let c = m[0][2].value();
            let d = m[1][1].value();
            let e = m[1][2].value();
            let f = m[2][2].value();
            let den = symmetric_det(a, b, c, d, e, f);
            let inv = inverse_symmetric_model(m);
            &&& den != 0real
            &&& inv[0][0].value() == (d * f - e * e) / den
            &&& inv[1][1].value() == (a * f - c * c) / den
            &&& inv[2][2].value() == (a * d - b * b) / den
            &&& inv[0][1].value() == (c * e - b * f) / den
            &&& inv[0][2].value() == (b * e - c * d) / den
            &&& inv[1][2].value() == (b * c - a * e) / den
            &&& inv[1][0] == inv[0][1]
            &&& inv[2][0] == inv[0][2]
            &&& inv[2][1] == inv[1][2]
        }),
{
    broadcast use group_rational_values;

    let inv = inverse_symmetric_model(m);
    let cof = symmetric_cofactors_model(m);
    let den = symmetric_den_model(m);
    assert(inv[0][0].is_defined() && inv[0][1].is_defined() && inv[0][2].is_defined());
    assert(inv[1][1].is_defined() && inv[1][2].is_defined() && inv[2][2].is_defined());
    assert(inv[0][0] == cof[0][0].div_model(den));
    assert(inv[0][1] == cof[0][1].div_model(den));
    assert(inv[0][2] == cof[0][2].div_model(den));
    assert(inv[1][1] == cof[1][1].div_model(den));
    assert(inv[1][2] == cof[1][2].div_model(den));
    assert(inv[2][2] == cof[2][2].div_model(den));
    assert(inv[1][0] == cof[1][0].div_model(den));
    assert(inv[2][0] == cof[2][0].div_model(den));
    assert(inv[2][1] == cof[2][1].div_model(den));
    let two = Rational::from_ratio_model(2, 1);
    assert(two.value() == 2real) by (nonlinear_arith)
        requires
            two.value() == 2int as real / 1int as real,
    ;
}

/// A symmetric matrix times its symmetric inverse is the identity: where
/// every entry of the inverse is defined, each entry of the real product
/// equals that of the identity matrix.
pub proof fn lemma_inverse_symmetric_round_trip(m: Seq<Seq<Rational>>, i: int, j: int)
    requires
        is_symmetric(m),
        is_defined_matrix(inverse_symmetric_model(m)),
        0 <= i < 3,
        0 <= j < 3,
    ensures
        product_entry(m, inverse_symmetric_model(m), i, j) == identity_entry(i, j),
{
    lemma_inverse_symmetric_values(m);
    let a = m[0][0].value();
    let b = m[0][1].value();
    let c = m[0][2].value();
    let d = m[1][1].value();
    let e = m[1][2].value();
    let f = m[2][2].value();
    let den = symmetric_det(a, b, c, d, e, f);
    let c00 = d * f - e * e;
    let c11 = a * f - c * c;
    let c22 = a * d - b * b;
    let c01 = c * e - b * f;
    let c02 = b * e - c * d;
    let c12 = b * c - a * e;
    lemma_symmetric_cofactors(a, b, c, d, e, f);
    assert(den / den == 1real && 0real / den == 0real) by (nonlinear_arith)
        requires
            den != 0real,
    ;
    if i == 0 {
        if j == 0 {
            lemma_row_over_den(a, b, c, c00, c01, c02, den);
        } else if j == 1 {
            lemma_row_over_den(a, b, c, c01, c11, c12, den);
        } else {
            lemma_row_over_den(a, b, c, c02, c12, c22, den);
        }
    } else if i == 1 {
        if j == 0 {
            lemma_row_over_den(b, d, e, c00, c01, c02, den);
        } else if j == 1 {
            lemma_row_over_den(b, d, e, c01, c11, c12, den);
        } else {
            lemma_row_over_den(b, d, e, c02, c12, c22, den);
        }
    } else {
        if j == 0 {
            lemma_row_over_den(c, e, f, c00, c01, c02, den);
        } else if j == 1 {
            lemma_row_over_den(c, e, f, c01, c11, c12, den);
        } else {
            lemma_row_over_den(c, e, f, c02, c12, c22, den);
        }
    }
}

/// The symmetric inverse times the matrix is the identity too: where every
/// entry of the inverse of a symmetric matrix is defined, each entry of
/// the real product, the inverse on the left, equals that of the identity
/// matrix.
pub proof fn lemma_inverse_symmetric_round_trip_left(m: Seq<Seq<Rational>>, i: int, j: int)
    requires
        is_symmetric(m),
        is_defined_matrix(inverse_symmetric_model(m)),
        0 <= i < 3,
        0 <= j < 3,
    ensures
        product_entry(inverse_symmetric_model(m), m, i, j) == identity_entry(i, j),
{
    let inv = inverse_symmetric_model(m);
    lemma_inverse_symmetric_values(m);
    lemma_inverse_symmetric_round_trip(m, j, i);
    // Both matrices are symmetric: entry (i, j) of the one product is entry
    // (j, i) of the other.
    assert(inv[i][0] == inv[0][i] && inv[i][1] == inv[1][i] && inv[i][2] == inv[2][i]);
    assert(m[0][j] == m[j][0] && m[1][j] == m[j][1] && m[2][j] == m[j][2]);
    lemma_commute(inv[0][i].value(), m[j][0].value());
    lemma_commute(inv[1][i].value(), m[j][1].value());
    lemma_commute(inv[2][i].value(), m[j][2].value());
}

/// A product does not depend on the order of its factors.
proof fn lemma_commute(x: real, y: real)
    ensures
        x * y == y * x,
{
    assert(x * y == y * x) by (nonlinear_arith);
}

/// A defined value with a zero numerator stands for zero.
proof fn lemma_zero_value(x: Rational)
    requires
        x.is_defined(),
        x.num == 0,
    ensures
        x.value() == 0real,
{
    let d = x.den as real;
    assert(0int as real / d == 0real) by (nonlinear_arith)
        requires
            d != 0real,
    ;
}

/// On a diagonal matrix the symmetric inverse and the principal inverse
/// agree: where both are defined, their entries stand for the same reals.
pub proof fn lemma_inverse_of_diagonal(m: Seq<Seq<Rational>>, i: int, j: int)
    requires
        is_diagonal(m),
        is_defined_matrix(inverse_symmetric_model(m)),
        is_defined_matrix(inverse_principal_model(m)),
        0 <= i < 3,
        0 <= j < 3,
    ensures
        inverse_symmetric_model(m)[i][j].value() == inverse_principal_model(m)[i][j].value(),
{
    broadcast use group_rational_values;

    lemma_inverse_symmetric_values(m);
    lemma_zero_value(m[0][1]);
    lemma_zero_value(m[0][2]);
    lemma_zero_value(m[1][2]);
    let a = m[0][0].value();
    let d = m[1][1].value();
    let f = m[2][2].value();
    let z = 0real;
    let den = symmetric_det(a, z, z, d, z, f);
    let p = inverse_principal_model(m);
    let zero = Rational::from_ratio_model(0, 1);
    let one = Rational::from_ratio_model(1, 1);
    assert(p[0][0].is_defined() && p[1][1].is_defined() && p[2][2].is_defined());
    assert(p[0][1].is_defined());
    assert(p[0][0] == one.div_model(m[0][0]));
    assert(p[1][1] == one.div_model(m[1][1]));
    assert(p[2][2] == one.div_model(m[2][2]));
    assert(zero.value() == 0real && one.value() == 1real) by (nonlinear_arith)
        requires
            zero.value() == 0int as real / 1int as real,
            one.value() == 1int as real / 1int as real,
    ;
    lemma_zero_factor(z, z);
    lemma_zero_factor(a, z);
    lemma_zero_factor(d, z);
    lemma_zero_factor(f, z);
    lemma_zero_factor(2real * z, z);
    lemma_zero_factor(2real * z * z, z);
    assert(den == a * d * f);
    assert(0real / den == 0real) by (nonlinear_arith)
        requires
            den != 0real,
    ;
    lemma_product_of_three(a, d, f);
    lemma_zero_factor(a, d * f);
    lemma_zero_factor(d, a * f);
    lemma_zero_factor(a * d, f);
    if i == 0 && j == 0 {
        lemma_cross_multiplied(d * f - z * z, den, 1real, a);
    } else if i == 1 && j == 1 {
        lemma_cross_multiplied(a * f - z * z, den, 1real, d);
    } else if i == 2 && j == 2 {
        lemma_cross_multiplied(a * d - z * z, den, 1real, f);
    }
}

/// The real dot product of two vectors of three components.
pub open spec fn dot_values(a: Seq<Rational>, b: Seq<Rational>) -> real {
    a[0].value() * b[0].value() + a[1].value() * b[1].value() + a[2].value() * b[2].value()
}

/// The rate at which the rotational kinetic energy `w . (I w) / 2` of
/// `body` changes while its angular velocity `w` changes at the rate
/// `acc`: `w . (I acc)`, the inertia tensor `I` being symmetric.
pub open spec fn rotational_power(body: RigidBody<Rational>, acc: Seq<Rational>) -> real {
    let inertia = rows(body.rot_mass);
    let w = body.rot_vel@;
    w[0].value() * dot_values(inertia[0], acc) + w[1].value() * dot_values(inertia[1], acc)
        + w[2].value() * dot_values(inertia[2], acc)
}

/// Every component of the vector of three is a number.
pub open spec fn is_defined_vector(v: Seq<Rational>) -> bool {
    v[0].is_defined() && v[1].is_defined() && v[2].is_defined()
}

/// Euler's equation: where the angular acceleration of a body with a
/// symmetric inertia tensor is defined, the inertia tensor times the
/// angular acceleration is the external moment less the gyroscopic term,
/// in every component `i` of the real product.
pub proof fn lemma_euler_equation(body: RigidBody<Rational>, moment: Seq<Rational>, i: int)
    requires
        is_symmetric(rows(body.rot_mass)),
        moment.len() == 3,
        is_defined_vector(angular_acceleration_model(body, moment)),
        0 <= i < 3,
    ensures
        is_defined_matrix(inverse_symmetric_model(rows(body.rot_mass))),
        is_defined_vector(angular_momentum_rate_model(body, moment)),
        dot_values(rows(body.rot_mass)[i], angular_acceleration_model(body, moment))
            == angular_momentum_rate_model(body, moment)[i].value(),
{
    broadcast use group_rational_values;

    let m = rows(body.rot_mass);
    let inv = inverse_symmetric_model(m);
    let rate = angular_momentum_rate_model(body, moment);
    let acc = angular_acceleration_model(body, moment);
    assert(acc[0] == dot_model(inv[0], rate));
    assert(acc[1] == dot_model(inv[1], rate));
    assert(acc[2] == dot_model(inv[2], rate));
    assert(is_defined_matrix(inv));
    lemma_inverse_symmetric_round_trip(m, i, 0);
    lemma_inverse_symmetric_round_trip(m, i, 1);
    lemma_inverse_symmetric_round_trip(m, i, 2);
    let r0 = rate[0].value();
    let r1 = rate[1].value();
    let r2 = rate[2].value();
    lemma_row_matrix_vector(
        m[i][0].value(),
        m[i][1].value(),
        m[i][2].value(),
        inv[0][0].value(),
        inv[0][1].value(),
        inv[0][2].value(),
        inv[1][0].value(),
        inv[1][1].value(),
        inv[1][2].value(),
        inv[2][0].value(),
        inv[2][1].value(),
        inv[2][2].value(),
        r0,
        r1,
        r2,
    );
    lemma_distribute_two(0real, 0real, r0);
    lemma_distribute_two(0real, 0real, r1);
    lemma_distribute_two(0real, 0real, r2);
}

/// The power balance of Euler's equation: where the angular acceleration
/// of a body with a symmetric inertia tensor is defined, the rate of change
/// of its rotational kinetic energy is the power `w . M` of the external
/// moment `M`. The gyroscopic term does no work.
pub proof fn lemma_rotational_power_balance(body: RigidBody<Rational>, moment: Seq<Rational>)
    requires
        is_symmetric(rows(body.rot_mass)),
        moment.len() == 3,
        is_defined_vector(angular_acceleration_model(body, moment)),
    ensures
        rotational_power(body, angular_acceleration_model(body, moment)) == dot_values(
            body.rot_vel@,
            moment,
        ),
{
    broadcast use group_rational_values;

    lemma_euler_equation(body, moment, 0);
    lemma_euler_equation(body, moment, 1);
    lemma_euler_equation(body, moment, 2);
    let w = body.rot_vel@;
    let l = mat_vec_model(rows(body.rot_mass), w);
    let g = cross_model(w, l);
    let rate = angular_momentum_rate_model(body, moment);
    assert(rate == sub_model(moment, g));
    assert(rate[0] == moment[0].sub_model(g[0]));
    assert(rate[1] == moment[1].sub_model(g[1]));
    assert(rate[2] == moment[2].sub_model(g[2]));
    let w0 = w[0].value();
    let w1 = w[1].value();
    let w2 = w[2].value();
    lemma_orthogonal_to_cross(w0, w1, w2, l[0].value(), l[1].value(), l[2].value());
    lemma_distribute(w0, moment[0].value(), g[0].value());
    lemma_distribute(w1, moment[1].value(), g[1].value());
    lemma_distribute(w2, moment[2].value(), g[2].value());
}

/// Torque-free motion keeps the rotational kinetic energy: where no
/// external moment acts, the rate of change of `w . (I w) / 2` is zero.
pub proof fn lemma_torque_free_power(body: RigidBody<Rational>, moment: Seq<Rational>)
    requires
        is_symmetric(rows(body.rot_mass)),
        moment.len() == 3,
        is_defined_vector(angular_acceleration_model(body, moment)),
        moment[0].num == 0 && moment[1].num == 0 && moment[2].num == 0,
    ensures
        rotational_power(body, angular_acceleration_model(body, moment)) == 0real,
{
    broadcast use group_rational_values;

    lemma_rotational_power_balance(body, moment);
    lemma_euler_equation(body, moment, 0);
    let rate = angular_momentum_rate_model(body, moment);
    let g = cross_model(
        body.rot_vel@,
        mat_vec_model(rows(body.rot_mass), body.rot_vel@),
    );
    assert(rate[0] == moment[0].sub_model(g[0]));
    assert(rate[1] == moment[1].sub_model(g[1]));
    assert(rate[2] == moment[2].sub_model(g[2]));
    lemma_zero_value(moment[0]);
    lemma_zero_value(moment[1]);
    lemma_zero_value(moment[2]);
    lemma_zero_factor(body.rot_vel@[0].value(), 0real);
    lemma_zero_factor(body.rot_vel@[1].value(), 0real);
    lemma_zero_factor(body.rot_vel@[2].value(), 0real);
}

} // verus!
