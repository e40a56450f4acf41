//! Laws of linear motion over the exact scalar [`Rational`]: Newton's
//! second law, the conservation of the total momentum of two bodies over a
//! tick, and that two bodies at rest start to close in.

use crate::rational::Rational;
use crate::rational_laws::group_rational_values;
use crate::gravity_laws::{displacement, lemma_gravity_attracts};
use crate::real_algebra::{
    lemma_distribute_two, lemma_factor_times_three, lemma_negation, lemma_product_of_three,
    lemma_reciprocal, lemma_sign_of_product,
};
use crate::rigid_body::{gravity_model, linear_acceleration_model, RigidBody};
use crate::runge_kutta::coeff_model;
use crate::scalar::Scalar;
use crate::tableau::{sum_values, ButcherTableau};
use crate::two_body::{constant_step, constant_weighted_sum, opposite_model};
use crate::vector::{add_model, scale_model};
use vstd::prelude::*;

verus! {

/// Newton's second law: a defined component of the linear acceleration,
/// times the mass, is that component of the force.
pub proof fn lemma_mass_times_acceleration(body: RigidBody<Rational>, force: Seq<Rational>, i: int)
    requires
        0 <= i < force.len(),
        linear_acceleration_model(body, force)[i].is_defined(),
    ensures
        body.lin_mass.value() * linear_acceleration_model(body, force)[i].value()
            == force[i].value(),
{
    broadcast use group_rational_values;

    let m = body.lin_mass.value();
    let f = force[i].value();
    assert(linear_acceleration_model(body, force)[i] == force[i].div_model(body.lin_mass));
    lemma_reciprocal(f, m);
    lemma_reciprocal(m, m);
    lemma_product_of_three(m, f, 1real / m);
    assert(f * 1real == f) by (nonlinear_arith);
}

/// The momentum of the body along axis `i` with the velocity `vel`.
pub open spec fn momentum(body: RigidBody<Rational>, vel: Seq<Rational>, i: int) -> real {
    body.lin_mass.value() * vel[i].value()
}

/// A constant weighted sum has the dimension of the derivative.
pub proof fn lemma_constant_weighted_sum_len(coeffs: Seq<Rational>, rate: Seq<Rational>, n: nat)
    ensures
        constant_weighted_sum(coeffs, rate, n).len() == rate.len(),
    decreases n,
{
    if n > 0 {
        lemma_constant_weighted_sum_len(coeffs, rate, (n - 1) as nat);
    }
}

/// A defined component of a constant weighted sum is the sum of the
/// weights times that component of the derivative; with at least one
/// weight, that component of the derivative is defined.
pub proof fn lemma_constant_weighted_sum_value(
    coeffs: Seq<Rational>,
    rate: Seq<Rational>,
    n: nat,
    i: int,
)
    requires
        0 <= i < rate.len(),
        constant_weighted_sum(coeffs, rate, n)[i].is_defined(),
    ensures
        constant_weighted_sum(coeffs, rate, n)[i].value() == sum_values(coeffs, n) * rate[i].value(),
        n >= 1 ==> rate[i].is_defined(),
    decreases n,
{
    broadcast use group_rational_values;

    let r = rate[i].value();
    if n == 0 {
        let zero = Rational::from_ratio_model(0, 1);
        assert(constant_weighted_sum(coeffs, rate, n)[i] == zero);
        assert(zero.value() == 0real) by (nonlinear_arith)
            requires
                zero.value() == 0int as real / 1int as real,
        ;
        lemma_distribute_two(0real, 0real, r);
    } else {
        let m = (n - 1) as nat;
        let w = constant_weighted_sum(coeffs, rate, m);
        let c = coeff_model::<Rational>(coeffs[n - 1]);
        let term = scale_model(c, rate);
        lemma_constant_weighted_sum_len(coeffs, rate, m);
        assert(constant_weighted_sum(coeffs, rate, n) == add_model(w, term));
        assert(add_model(w, term)[i] == w[i].add_model(term[i]));
        assert(term[i] == c.mul_model(rate[i]));
        lemma_constant_weighted_sum_value(coeffs, rate, m, i);
        assert(c.value() == coeffs[n - 1].value());
        lemma_distribute_two(sum_values(coeffs, m), coeffs[n - 1].value(), r);
    }
}

/// A step along a constant derivative by a method whose weights sum to
/// one: a defined component of the new state is that of the old state plus
/// the step size times that of the derivative, which is defined.
pub proof fn lemma_constant_step_value(
    y: Seq<Rational>,
    h: Rational,
    weights: Seq<Rational>,
    rate: Seq<Rational>,
    i: int,
)
    requires
        0 <= i < y.len(),
        y.len() == rate.len(),
        sum_values(weights, weights.len()) == 1real,
        constant_step(y, h, weights, rate)[i].is_defined(),
    ensures
        constant_step(y, h, weights, rate)[i].value() == y[i].value() + h.value() * rate[i].value(),
        rate[i].is_defined(),
{
    broadcast use group_rational_values;

    let w = constant_weighted_sum(weights, rate, weights.len());
    lemma_constant_weighted_sum_len(weights, rate, weights.len());
    let inc = scale_model(h, w);
    assert(constant_step(y, h, weights, rate) == add_model(y, inc));
    assert(add_model(y, inc)[i] == y[i].add_model(inc[i]));
    assert(inc[i] == h.mul_model(w[i]));
    lemma_constant_weighted_sum_value(weights, rate, weights.len(), i);
    lemma_distribute_two(0real, 0real, rate[i].value());
}

/// A tick keeps the total momentum of the two bodies: where the weights of
/// the tableau sum to one, the sum of the two momenta with the velocities
/// after the tick is the sum with the velocities before it, in every
/// component in which both new velocities are defined.
pub proof fn lemma_tick_keeps_total_momentum<const S: usize>(
    body1: RigidBody<Rational>,
    body2: RigidBody<Rational>,
    h: Rational,
    tableau: ButcherTableau<S>,
    i: int,
)
    requires
        0 <= i < 3,
        tableau.is_consistent(),
        constant_step(
            body1.lin_vel@,
            h,
            tableau.b(),
            linear_acceleration_model(body1, gravity_model(body1, body2)),
        )[i].is_defined(),
        constant_step(
            body2.lin_vel@,
            h,
            tableau.b(),
            linear_acceleration_model(body2, opposite_model(gravity_model(body1, body2))),
        )[i].is_defined(),
    ensures
        momentum(
            body1,
            constant_step(
                body1.lin_vel@,
                h,
                tableau.b(),
                linear_acceleration_model(body1, gravity_model(body1, body2)),
            ),
            i,
        ) + momentum(
            body2,
            constant_step(
                body2.lin_vel@,
                h,
                tableau.b(),
                linear_acceleration_model(body2, opposite_model(gravity_model(body1, body2))),
            ),
            i,
        ) == momentum(body1, body1.lin_vel@, i) + momentum(body2, body2.lin_vel@, i),
{
    broadcast use group_rational_values;

    let force = gravity_model(body1, body2);
    let opposite = opposite_model(force);
    let acc1 = linear_acceleration_model(body1, force);
    let acc2 = linear_acceleration_model(body2, opposite);
    tableau.lemma_dimensions();
    lemma_constant_step_value(body1.lin_vel@, h, tableau.b(), acc1, i);
    lemma_constant_step_value(body2.lin_vel@, h, tableau.b(), acc2, i);
    lemma_mass_times_acceleration(body1, force, i);
    lemma_mass_times_acceleration(body2, opposite, i);
    let minus_one = Rational::from_ratio_model(-1i64, 1);
    assert(opposite[i] == minus_one.mul_model(force[i]));
    assert(minus_one.value() == -1real) by (nonlinear_arith)
        requires
            minus_one.value() == (-1int) as real / 1int as real,
    ;
    let m1 = body1.lin_mass.value();
    let m2 = body2.lin_mass.value();
    let hv = h.value();
    let a1 = acc1[i].value();
    let a2 = acc2[i].value();
    let v1 = body1.lin_vel@[i].value();
    let v2 = body2.lin_vel@[i].value();
    let f = force[i].value();
    lemma_factor_times_three(m1, v1, hv * a1, 0real);
    lemma_factor_times_three(m2, v2, hv * a2, 0real);
    lemma_product_of_three(m1, hv, a1);
    lemma_product_of_three(m2, hv, a2);
    lemma_product_of_three(hv, m1, a1);
    lemma_product_of_three(hv, m2, a2);
    lemma_negation(hv, f);
    lemma_negation(1real, f);
    lemma_distribute_two(0real, 0real, f);
    lemma_distribute_two(0real, 0real, -f);
    assert(m1 * 0real == 0real && m2 * 0real == 0real) by (nonlinear_arith);
}

/// The body does not move: its velocity is zero.
pub open spec fn is_at_rest(body: RigidBody<Rational>) -> bool {
    forall|i: int| 0 <= i < 3 ==> (#[trigger] body.lin_vel@[i]).num == 0
}

/// Two bodies at rest start to close in: after a tick of positive size by
/// a method whose weights sum to one, the velocity of the first body of
/// two of positive mass has, in every component in which it is defined,
/// the sign of the vector from the first body to the second, and the
/// velocity of the second body the opposite sign.
pub proof fn lemma_tick_from_rest_closes_in<const S: usize>(
    body1: RigidBody<Rational>,
    body2: RigidBody<Rational>,
    h: Rational,
    tableau: ButcherTableau<S>,
    i: int,
)
    requires
        0 <= i < 3,
        tableau.is_consistent(),
        h.value() > 0real,
        body1.lin_mass.value() > 0real,
        body2.lin_mass.value() > 0real,
        is_at_rest(body1),
        is_at_rest(body2),
        constant_step(
            body1.lin_vel@,
            h,
            tableau.b(),
            linear_acceleration_model(body1, gravity_model(body1, body2)),
        )[i].is_defined(),
        constant_step(
            body2.lin_vel@,
            h,
            tableau.b(),
            linear_acceleration_model(body2, opposite_model(gravity_model(body1, body2))),
        )[i].is_defined(),
    ensures
        ({
            let r = displacement(body1, body2, i);
            let v1 = constant_step(
                body1.lin_vel@,
                h,
                tableau.b(),
                linear_acceleration_model(body1, gravity_model(body1, body2)),
            )[i].value();
            let v2 = constant_step(
                body2.lin_vel@,
                h,
                tableau.b(),
                linear_acceleration_model(body2, opposite_model(gravity_model(body1, body2))),
            )[i].value();
            &&& r > 0real <==> v1 > 0real
            &&& r < 0real <==> v1 < 0real
            &&& r > 0real <==> v2 < 0real
            &&& r < 0real <==> v2 > 0real
        }),
{
    broadcast use group_rational_values;

    let force = gravity_model(body1, body2);
    let opposite = opposite_model(force);
    let acc1 = linear_acceleration_model(body1, force);
    let acc2 = linear_acceleration_model(body2, opposite);
    tableau.lemma_dimensions();
    lemma_constant_step_value(body1.lin_vel@, h, tableau.b(), acc1, i);
    lemma_constant_step_value(body2.lin_vel@, h, tableau.b(), acc2, i);
    lemma_mass_times_acceleration(body1, force, i);
    lemma_mass_times_acceleration(body2, opposite, i);
    let minus_one = Rational::from_ratio_model(-1i64, 1);
    assert(opposite[i] == minus_one.mul_model(force[i]));
    assert(minus_one.value() == -1real) by (nonlinear_arith)
        requires
            minus_one.value() == (-1int) as real / 1int as real,
    ;
    let f = force[i].value();
    lemma_negation(1real, f);
    lemma_distribute_two(0real, 0real, f);
    lemma_distribute_two(0real, 0real, -f);
    lemma_gravity_attracts(body1, body2, i);
    lemma_zero_velocity(body1.lin_vel@[i]);
    lemma_zero_velocity(body2.lin_vel@[i]);
    lemma_sign_of_product(body1.lin_mass.value(), acc1[i].value());
    lemma_sign_of_product(body2.lin_mass.value(), acc2[i].value());
    lemma_sign_of_product(h.value(), acc1[i].value());
    lemma_sign_of_product(h.value(), acc2[i].value());
}

/// A velocity with a zero numerator is zero.
proof fn lemma_zero_velocity(v: Rational)
    requires
        v.is_defined(),
        v.num == 0,
    ensures
        v.value() == 0real,
{
    let d = v.den as real;
    assert(0int as real / d == 0real) by (nonlinear_arith)
        requires
            d != 0real,
    ;
}

} // verus!
