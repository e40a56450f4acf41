//! Newton-Euler dynamics of a rigid body and Newtonian gravity between two.

use crate::scalar::Scalar;
use crate::vector::{
    cross_model, mat_vec_model, norm_squared_model, normalize_model, rows, scale_model, sub_model,
    unscale_model,
};
use vstd::prelude::*;

verus! {

/// The numerator of the gravitational constant in m^3 kg^-1 s^-2.
pub const GRAVITATIONAL_NUM: i64 = 667430;

/// The denominator of the gravitational constant: `10^16`.
pub const GRAVITATIONAL_DEN: i64 = 10_000_000_000_000_000;

/// The state of a rigid body.
#[derive(Debug)]
pub struct RigidBody<T> {
    /// The mass.
    pub lin_mass: T,
    /// The inertia tensor, by rows; symmetric.
    pub rot_mass: [[T; 3]; 3],
    /// The position.
    pub lin_pos: [T; 3],
    /// The velocity.
    pub lin_vel: [T; 3],
    /// The orientation.
    pub rot_pos: [T; 4],
    /// The angular velocity.
    pub rot_vel: [T; 3],
}

/// The denominator of the symmetric inverse: the determinant of `m`.
pub open spec fn symmetric_den_model<T: Scalar>(m: Seq<Seq<T>>) -> T {
    let two = T::from_ratio_model(2, 1);
    m[0][0].mul_model(m[1][1]).mul_model(m[2][2]).add_model(
        two.mul_model(m[0][1]).mul_model(m[0][2]).mul_model(m[1][2]),
    ).sub_model(m[0][0].mul_model(m[1][2].mul_model(m[1][2]))).sub_model(
        m[1][1].mul_model(m[0][2].mul_model(m[0][2])),
    ).sub_model(m[2][2].mul_model(m[0][1].mul_model(m[0][1])))
}

/// The cofactors of the symmetric matrix `m`, by rows.
pub open spec fn symmetric_cofactors_model<T: Scalar>(m: Seq<Seq<T>>) -> Seq<Seq<T>> {
    let c00 = m[1][1].mul_model(m[2][2]).sub_model(m[1][2].mul_model(m[1][2]));
    let c11 = m[0][0].mul_model(m[2][2]).sub_model(m[0][2].mul_model(m[0][2]));
    let c22 = m[0][0].mul_model(m[1][1]).sub_model(m[0][1].mul_model(m[0][1]));
    let c01 = m[0][2].mul_model(m[1][2]).sub_model(m[0][1].mul_model(m[2][2]));
    let c02 = m[0][1].mul_model(m[1][2]).sub_model(m[0][2].mul_model(m[1][1]));
    let c12 = m[0][1].mul_model(m[0][2]).sub_model(m[0][0].mul_model(m[1][2]));
    seq![seq![c00, c01, c02], seq![c01, c11, c12], seq![c02, c12, c22]]
}

/// What [`inverse_symmetric`] returns, by rows: every cofactor divided by
/// the determinant.
pub open spec fn inverse_symmetric_model<T: Scalar>(m: Seq<Seq<T>>) -> Seq<Seq<T>> {
    let den = symmetric_den_model(m);
    let c = symmetric_cofactors_model(m);
    seq![unscale_model(c[0], den), unscale_model(c[1], den), unscale_model(c[2], den)]
}

/// What [`inverse_principal`] returns, by rows.
pub open spec fn inverse_principal_model<T: Scalar>(m: Seq<Seq<T>>) -> Seq<Seq<T>> {
    let zero = T::from_ratio_model(0, 1);
    let one = T::from_ratio_model(1, 1);
    seq![
        seq![one.div_model(m[0][0]), zero, zero],
        seq![zero, one.div_model(m[1][1]), zero],
        seq![zero, zero, one.div_model(m[2][2])],
    ]
}

/// The linear acceleration of `body` under the force `force`.
pub open spec fn linear_acceleration_model<T: Scalar>(body: RigidBody<T>, force: Seq<T>) -> Seq<T> {
    unscale_model(force, body.lin_mass)
}

/// The rate of change of the angular momentum of `body` under the moment
/// `moment`, in body axes: the moment less the gyroscopic term.
pub open spec fn angular_momentum_rate_model<T: Scalar>(body: RigidBody<T>, moment: Seq<T>) -> Seq<
    T,
> {
    sub_model(
        moment,
        cross_model(body.rot_vel@, mat_vec_model(rows(body.rot_mass), body.rot_vel@)),
    )
}

/// The angular acceleration of `body` under the moment `moment`: the
/// inverse of the inertia tensor applied to the rate of change of the
/// angular momentum.
pub open spec fn angular_acceleration_model<T: Scalar>(body: RigidBody<T>, moment: Seq<T>) -> Seq<
    T,
> {
    mat_vec_model(
        inverse_symmetric_model(rows(body.rot_mass)),
        angular_momentum_rate_model(body, moment),
    )
}

/// The force that [`newtonian_gravity`] returns.
pub open spec fn gravity_model<T: Scalar>(body1: RigidBody<T>, body2: RigidBody<T>) -> Seq<T> {
    let r21 = sub_model(body2.lin_pos@, body1.lin_pos@);
    let g = T::from_ratio_model(GRAVITATIONAL_NUM, GRAVITATIONAL_DEN);
    let strength = g.mul_model(body1.lin_mass).mul_model(body2.lin_mass).div_model(
        norm_squared_model(r21),
    );
    scale_model(strength, normalize_model(r21))
}

/// The gravitational force on the first body: `G * m1 * m2 / |r|^2 * (r /
/// |r|)`, `r` being the vector from the first body to the second. It
/// attracts: it has the magnitude `G * m1 * m2 / |r|^2` and points from the
/// first body to the second. The force on the second body is the negation,
/// which is also what the call with the bodies exchanged returns.
pub fn newtonian_gravity<T: Scalar>(rigidbody1: &RigidBody<T>, rigidbody2: &RigidBody<T>) -> (f21:
    [T; 3])
    ensures
        f21@ == gravity_model(*rigidbody1, *rigidbody2),
{
    let g = T::from_ratio(GRAVITATIONAL_NUM, GRAVITATIONAL_DEN);
    let r21 = crate::vector::sub(&rigidbody2.lin_pos, &rigidbody1.lin_pos);
    let r21_unit = crate::vector::normalize(&r21);
    let r21_norm_sq = crate::vector::norm_squared(&r21);
    let strength = g.mul(&rigidbody1.lin_mass).mul(&rigidbody2.lin_mass).div(&r21_norm_sq);
    crate::vector::scale(&strength, &r21_unit)
}

/// The inverse of the symmetric matrix `m`, from its cofactors and its
/// determinant. Reads the upper triangle of `m` only.
pub fn inverse_symmetric<T: Scalar>(m: &[[T; 3]; 3]) -> (inv_m: [[T; 3]; 3])
    ensures
        rows(inv_m) == inverse_symmetric_model(rows(*m)),
{
    let two = T::from_ratio(2, 1);
    let den = m[0][0].mul(&m[1][1]).mul(&m[2][2]).add(
        &two.mul(&m[0][1]).mul(&m[0][2]).mul(&m[1][2]),
    ).sub(&m[0][0].mul(&m[1][2].mul(&m[1][2]))).sub(&m[1][1].mul(&m[0][2].mul(&m[0][2]))).sub(
        &m[2][2].mul(&m[0][1].mul(&m[0][1])),
    );

    let m00 = m[1][1].mul(&m[2][2]).sub(&m[1][2].mul(&m[1][2]));
    let m11 = m[0][0].mul(&m[2][2]).sub(&m[0][2].mul(&m[0][2]));
    let m22 = m[0][0].mul(&m[1][1]).sub(&m[0][1].mul(&m[0][1]));

    let m01 = m[0][2].mul(&m[1][2]).sub(&m[0][1].mul(&m[2][2]));
    let m02 = m[0][1].mul(&m[1][2]).sub(&m[0][2].mul(&m[1][1]));
    let m12 = m[0][1].mul(&m[0][2]).sub(&m[0][0].mul(&m[1][2]));

    let row0 = [m00, m01, m02];
    let row1 = [m01, m11, m12];
    let row2 = [m02, m12, m22];
    proof {
        let c = symmetric_cofactors_model(rows(*m));
        assert(row0@ =~= c[0]);
        assert(row1@ =~= c[1]);
        assert(row2@ =~= c[2]);
    }
    let inv_m = [
        crate::vector::unscale(&row0, &den),
        crate::vector::unscale(&row1, &den),
        crate::vector::unscale(&row2, &den),
    ];
    assert(rows(inv_m) =~= inverse_symmetric_model(rows(*m)));
    inv_m
}

/// The inverse of a diagonal matrix: the reciprocals of the diagonal.
/// Reads the diagonal of `m` only.
pub fn inverse_principal<T: Scalar>(m: &[[T; 3]; 3]) -> (inv_m: [[T; 3]; 3])
    ensures
        rows(inv_m) == inverse_principal_model(rows(*m)),
{
    let zero = T::from_ratio(0, 1);
    let one = T::from_ratio(1, 1);
    let inv_m = [
        [one.div(&m[0][0]), zero, zero],
        [zero, one.div(&m[1][1]), zero],
        [zero, zero, one.div(&m[2][2])],
    ];
    proof {
        let e = inverse_principal_model(rows(*m));
        assert(inv_m@[0]@ =~= e[0]);
        assert(inv_m@[1]@ =~= e[1]);
        assert(inv_m@[2]@ =~= e[2]);
        assert(rows(inv_m) =~= e);
    }
    inv_m
}

/// The linear and the angular acceleration of `rigidbody` under the given
/// external force and moment, by the Newton-Euler equations.
pub fn newton_euler_dynamics<T: Scalar>(
    rigidbody: &RigidBody<T>,
    external_forces: &[T; 3],
    external_moments: &[T; 3],
) -> (acc: ([T; 3], [T; 3]))
    ensures
        acc.0@ == linear_acceleration_model(*rigidbody, external_forces@),
        acc.1@ == angular_acceleration_model(*rigidbody, external_moments@),
{
    let inv_rot_mass = inverse_symmetric(&rigidbody.rot_mass);

    let rot_mass_vel = crate::vector::mat_vec(&rigidbody.rot_mass, &rigidbody.rot_vel);
    let gyroscopic = crate::vector::cross(&rigidbody.rot_vel, &rot_mass_vel);
    let rot_mom_rate = crate::vector::sub(external_moments, &gyroscopic);

    let lin_acc = crate::vector::unscale(external_forces, &rigidbody.lin_mass);
    let rot_acc = crate::vector::mat_vec(&inv_rot_mass, &rot_mom_rate);

    (lin_acc, rot_acc)
}

} // verus!
