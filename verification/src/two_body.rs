//! One tick of two rigid bodies under their mutual gravity.
//!
//! Position and velocity are stepped apart: the position of a body along
//! its velocity and the velocity along its linear acceleration, both held
//! at what they were before the tick. Orientation and angular velocity
//! are left as they are.

use crate::rational::Rational;
use crate::rigid_body::{
    gravity_model, linear_acceleration_model, newton_euler_dynamics, newtonian_gravity, RigidBody,
};
use crate::runge_kutta::{coeff_model, explicit, is_stage_derivative, is_stage_table, step_state, weighted_sum};
use crate::scalar::Scalar;
use crate::tableau::ButcherTableau;
use crate::vector::{add_model, scale_model, zeros_model};
use vstd::prelude::*;

verus! {

/// `coeffs[0] * rate + .. + coeffs[n-1] * rate`, summed left to right from
/// the zero vector.
pub open spec fn constant_weighted_sum<T: Scalar>(coeffs: Seq<Rational>, rate: Seq<T>, n: nat) -> Seq<
    T,
>
    decreases n,
{
    if n == 0 {
        zeros_model::<T>(rate.len())
    } else {
        add_model(
            constant_weighted_sum(coeffs, rate, (n - 1) as nat),
            scale_model(coeff_model::<T>(coeffs[n - 1]), rate),
        )
    }
}

/// The state one step of size `h` after `y`, along the constant
/// derivative `rate`, by the method of the given weights.
pub open spec fn constant_step<T: Scalar>(y: Seq<T>, h: T, weights: Seq<Rational>, rate: Seq<T>) -> Seq<
    T,
> {
    add_model(y, scale_model(h, constant_weighted_sum(weights, rate, weights.len())))
}

/// The negation of a force: every component times minus one.
pub open spec fn opposite_model<T: Scalar>(force: Seq<T>) -> Seq<T> {
    scale_model(T::from_ratio_model(-1i64, 1), force)
}

/// Where every stage derivative is `rate`, the weighted sum of the stage
/// derivatives is the constant weighted sum.
pub proof fn lemma_weighted_sum_of_constant_table<T: Scalar, const N: usize>(
    coeffs: Seq<Rational>,
    ks: Seq<[T; N]>,
    rate: [T; N],
    n: nat,
)
    requires
        n <= ks.len(),
        forall|j: int| 0 <= j < n ==> ks[j] == rate,
    ensures
        weighted_sum(coeffs, ks, n) == constant_weighted_sum(coeffs, rate@, n),
    decreases n,
{
    if n > 0 {
        lemma_weighted_sum_of_constant_table(coeffs, ks, rate, (n - 1) as nat);
    }
}

/// Steps `y` at the time `time` by `h` along the constant derivative
/// `rate`, and returns the new time and state.
pub fn step_constant<T: Scalar, const S: usize, const N: usize>(
    time: &T,
    y: &[T; N],
    rate: [T; N],
    h: T,
    tableau: &ButcherTableau<S>,
) -> (next: (T, [T; N]))
    ensures
        next.0 == time.add_model(h),
        next.1@ == constant_step(y@, h, tableau.b(), rate@),
{
    let f = |_t: &T, _y: &[T; N]| -> (k: [T; N])
        ensures
            k == rate,
        { rate };
    let next = explicit(time, y, &f, h, tableau);
    proof {
        let ks = choose|ks: Seq<[T; N]>|
            is_stage_table(f, *time, y@, h, *tableau, ks) && next.1@ == step_state(
                y@,
                h,
                *tableau,
                ks,
            );
        assert forall|s: int| 0 <= s < S implies ks[s] == rate by {
            assert(is_stage_derivative(f, *time, y@, h, *tableau, ks, s, ks[s]));
        }
        tableau.lemma_dimensions();
        lemma_weighted_sum_of_constant_table(tableau.b(), ks, rate, S as nat);
    }
    next
}

/// Advances the two bodies by one tick of size `h` under their mutual
/// gravity, and returns the time after the tick.
///
/// The first body is pulled by the force of [`newtonian_gravity`] on the
/// pair in this order, toward the second body, and the second by its
/// negation, toward the first.
pub fn tick<T: Scalar, const S: usize>(
    rigidbody1: &mut RigidBody<T>,
    rigidbody2: &mut RigidBody<T>,
    time: &T,
    h: T,
    tableau: &ButcherTableau<S>,
) -> (new_time: T)
    ensures
        new_time == time.add_model(h),
        final(rigidbody1).lin_pos@ == constant_step(
            old(rigidbody1).lin_pos@,
            h,
            tableau.b(),
            old(rigidbody1).lin_vel@,
        ),
        final(rigidbody2).lin_pos@ == constant_step(
            old(rigidbody2).lin_pos@,
            h,
            tableau.b(),
            old(rigidbody2).lin_vel@,
        ),
        final(rigidbody1).lin_vel@ == constant_step(
            old(rigidbody1).lin_vel@,
            h,
            tableau.b(),
            linear_acceleration_model(
                *old(rigidbody1),
                gravity_model(*old(rigidbody1), *old(rigidbody2)),
            ),
        ),
        final(rigidbody2).lin_vel@ == constant_step(
            old(rigidbody2).lin_vel@,
            h,
            tableau.b(),
            linear_acceleration_model(
                *old(rigidbody2),
                opposite_model(gravity_model(*old(rigidbody1), *old(rigidbody2))),
            ),
        ),
        final(rigidbody1).lin_mass == old(rigidbody1).lin_mass,
        final(rigidbody1).rot_mass == old(rigidbody1).rot_mass,
        final(rigidbody1).rot_pos == old(rigidbody1).rot_pos,
        final(rigidbody1).rot_vel == old(rigidbody1).rot_vel,
        final(rigidbody2).lin_mass == old(rigidbody2).lin_mass,
        final(rigidbody2).rot_mass == old(rigidbody2).rot_mass,
        final(rigidbody2).rot_pos == old(rigidbody2).rot_pos,
        final(rigidbody2).rot_vel == old(rigidbody2).rot_vel,
{
    let f21 = newtonian_gravity(rigidbody1, rigidbody2);
    let f12 = crate::vector::scale(&T::from_ratio(-1, 1), &f21);
    let zero = crate::vector::zeros::<T, 3>();

    let (lin_acc1, _rot_acc1) = newton_euler_dynamics(rigidbody1, &f21, &zero);
    let (lin_acc2, _rot_acc2) = newton_euler_dynamics(rigidbody2, &f12, &zero);

    let (_, new_lin_pos1) = step_constant(time, &rigidbody1.lin_pos, rigidbody1.lin_vel, h, tableau);
    let (_, new_lin_vel1) = step_constant(time, &rigidbody1.lin_vel, lin_acc1, h, tableau);
    let (_, new_lin_pos2) = step_constant(time, &rigidbody2.lin_pos, rigidbody2.lin_vel, h, tableau);
    let (new_time, new_lin_vel2) = step_constant(time, &rigidbody2.lin_vel, lin_acc2, h, tableau);

    rigidbody1.lin_pos = new_lin_pos1;
    rigidbody1.lin_vel = new_lin_vel1;
    rigidbody2.lin_pos = new_lin_pos2;
    rigidbody2.lin_vel = new_lin_vel2;

    new_time
}

} // verus!
