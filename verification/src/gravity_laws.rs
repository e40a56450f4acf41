//! Laws of Newtonian gravity over the exact scalar [`Rational`].

use crate::rational::Rational;
use crate::rational_laws::group_rational_values;
use crate::real_algebra::{
    lemma_distribute_three, lemma_distribute_two, lemma_factor_times_three, lemma_negation,
    lemma_product_of_three, lemma_reciprocal, lemma_same_square, lemma_sign_of_product,
    lemma_sign_of_quotient, lemma_square_of_scaled_quotient, lemma_zero_factor,
};
use crate::rigid_body::{gravity_model, RigidBody, GRAVITATIONAL_DEN, GRAVITATIONAL_NUM};
use crate::rigid_body_laws::{dot_values, is_defined_vector};
use crate::scalar::Scalar;
use crate::vector::{norm_squared_model, normalize_model, scale_model, sub_model, unscale_model};
use vstd::prelude::*;

verus! {

/// The gravitational constant.
pub open spec fn gravitational_constant() -> real {
    GRAVITATIONAL_NUM as real / GRAVITATIONAL_DEN as real
}

/// Component `i` of the vector from `body1` to `body2`.
pub open spec fn displacement(body1: RigidBody<Rational>, body2: RigidBody<Rational>, i: int) -> real {
    body2.lin_pos@[i].value() - body1.lin_pos@[i].value()
}

/// The squared distance between the two bodies.
pub open spec fn distance_squared(body1: RigidBody<Rational>, body2: RigidBody<Rational>) -> real {
    displacement(body1, body2, 0) * displacement(body1, body2, 0) + displacement(body1, body2, 1)
        * displacement(body1, body2, 1) + displacement(body1, body2, 2) * displacement(
        body1,
        body2,
        2,
    )
}

/// The strength of the force: `G * m1 * m2 / |r|^2`.
pub open spec fn gravity_strength(body1: RigidBody<Rational>, body2: RigidBody<Rational>) -> real {
    gravitational_constant() * body1.lin_mass.value() * body2.lin_mass.value() / distance_squared(
        body1,
        body2,
    )
}

/// What a defined component of the force stands for: the strength
/// `G * m1 * m2 / |r|^2` times that component of the unit vector from the
/// first body to the second. The distance `n` is positive.
pub proof fn lemma_gravity_value(body1: RigidBody<Rational>, body2: RigidBody<Rational>, i: int) -> (n:
    real)
    requires
        0 <= i < 3,
        gravity_model(body1, body2)[i].is_defined(),
    ensures
        n > 0real,
        n * n == distance_squared(body1, body2),
        gravity_model(body1, body2)[i].value() == gravity_strength(body1, body2) * (displacement(
            body1,
            body2,
            i,
        ) / n),
{
    broadcast use group_rational_values;

    let r21 = sub_model(body2.lin_pos@, body1.lin_pos@);
    let nsq = norm_squared_model(r21);
    let len = nsq.sqrt_model();
    let unit = normalize_model(r21);
    let g = Rational::from_ratio_model(GRAVITATIONAL_NUM, GRAVITATIONAL_DEN);
    let strength = g.mul_model(body1.lin_mass).mul_model(body2.lin_mass).div_model(nsq);
    assert(gravity_model(body1, body2)[i] == strength.mul_model(unit[i]));
    assert(unit == unscale_model(r21, len));
    assert(unit[i] == r21[i].div_model(len));
    assert(r21[0] == body2.lin_pos@[0].sub_model(body1.lin_pos@[0]));
    assert(r21[1] == body2.lin_pos@[1].sub_model(body1.lin_pos@[1]));
    assert(r21[2] == body2.lin_pos@[2].sub_model(body1.lin_pos@[2]));
    assert(nsq.value() == distance_squared(body1, body2));
    assert(g.value() == gravitational_constant());
    len.value()
}

/// The strength of the force between two bodies of positive mass that a
/// positive distance `n` parts is positive.
proof fn lemma_strength_is_positive(body1: RigidBody<Rational>, body2: RigidBody<Rational>, n: real)
    requires
        body1.lin_mass.value() > 0real,
        body2.lin_mass.value() > 0real,
        n > 0real,
        n * n == distance_squared(body1, body2),
    ensures
        gravity_strength(body1, body2) > 0real,
{
    let g = gravitational_constant();
    let num = GRAVITATIONAL_NUM as real;
    let den = GRAVITATIONAL_DEN as real;
    assert(num > 0real && den > 0real);
    lemma_sign_of_quotient(num, den);
    let m1 = body1.lin_mass.value();
    let m2 = body2.lin_mass.value();
    lemma_sign_of_product(g, m1);
    lemma_sign_of_product(g * m1, m2);
    lemma_sign_of_product(n, n);
    lemma_sign_of_quotient(g * m1 * m2, n * n);
}

/// Gravity attracts: between two bodies of positive mass, a defined
/// component of the force on the first body has the sign of that component
/// of the vector from the first body to the second, and is zero where that
/// is.
pub proof fn lemma_gravity_attracts(body1: RigidBody<Rational>, body2: RigidBody<Rational>, i: int)
    requires
        0 <= i < 3,
        body1.lin_mass.value() > 0real,
        body2.lin_mass.value() > 0real,
        gravity_model(body1, body2)[i].is_defined(),
    ensures
        displacement(body1, body2, i) > 0real <==> gravity_model(body1, body2)[i].value() > 0real,
        displacement(body1, body2, i) < 0real <==> gravity_model(body1, body2)[i].value() < 0real,
{
    let n = lemma_gravity_value(body1, body2, i);
    lemma_strength_is_positive(body1, body2, n);
    let r = displacement(body1, body2, i);
    lemma_sign_of_quotient(r, n);
    lemma_sign_of_product(gravity_strength(body1, body2), r / n);
}

/// Newton's third law: the force with the two bodies exchanged is the
/// negation, component by component, wherever both are defined.
pub proof fn lemma_gravity_is_antisymmetric(
    body1: RigidBody<Rational>,
    body2: RigidBody<Rational>,
    i: int,
)
    requires
        0 <= i < 3,
        gravity_model(body1, body2)[i].is_defined(),
        gravity_model(body2, body1)[i].is_defined(),
    ensures
        gravity_model(body2, body1)[i].value() == -gravity_model(body1, body2)[i].value(),
{
    let n12 = lemma_gravity_value(body1, body2, i);
    let n21 = lemma_gravity_value(body2, body1, i);
    let r0 = displacement(body1, body2, 0);
    let r1 = displacement(body1, body2, 1);
    let r2 = displacement(body1, body2, 2);
    lemma_negation(r0, r0);
    lemma_negation(r1, r1);
    lemma_negation(r2, r2);
    assert(displacement(body2, body1, 0) == -r0);
    assert(displacement(body2, body1, 1) == -r1);
    assert(displacement(body2, body1, 2) == -r2);
    assert(distance_squared(body2, body1) == distance_squared(body1, body2));
    lemma_same_square(n12, n21);
    let g = gravitational_constant();
    lemma_product_of_three(g, body1.lin_mass.value(), body2.lin_mass.value());
    assert(gravity_strength(body2, body1) == gravity_strength(body1, body2));
    let ri = displacement(body1, body2, i);
    lemma_negation(ri, n12);
    lemma_negation(gravity_strength(body1, body2), ri / n12);
}

/// The inverse-square law: where the force is defined, its squared
/// magnitude is the square of `G * m1 * m2 / |r|^2`.
pub proof fn lemma_gravity_magnitude(body1: RigidBody<Rational>, body2: RigidBody<Rational>)
    requires
        is_defined_vector(gravity_model(body1, body2)),
    ensures
        dot_values(gravity_model(body1, body2), gravity_model(body1, body2)) == gravity_strength(
            body1,
            body2,
        ) * gravity_strength(body1, body2),
{
    let n = lemma_gravity_value(body1, body2, 0);
    let n1 = lemma_gravity_value(body1, body2, 1);
    let n2 = lemma_gravity_value(body1, body2, 2);
    lemma_same_square(n, n1);
    lemma_same_square(n, n2);
    let s = gravity_strength(body1, body2);
    let r0 = displacement(body1, body2, 0);
    let r1 = displacement(body1, body2, 1);
    let r2 = displacement(body1, body2, 2);
    let nn = n * n;
    let k = 1real / nn;
    lemma_square_of_scaled_quotient(s, r0, n);
    lemma_square_of_scaled_quotient(s, r1, n);
    lemma_square_of_scaled_quotient(s, r2, n);
    lemma_distribute_three(r0 * r0, r1 * r1, r2 * r2, k);
    lemma_zero_factor(n, n);
    lemma_reciprocal(nn, nn);
    let ss = s * s;
    lemma_factor_times_three(ss, r0 * r0 * k, r1 * r1 * k, r2 * r2 * k);
    lemma_distribute_two(0real, 0real, ss);
}

} // verus!
