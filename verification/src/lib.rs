//! Explicit Runge-Kutta stepping and rigid-body dynamics, verified.
//!
//! The integrator and the dynamics are generic over a [`scalar::Scalar`]:
//! they are proved to compute fixed expressions in its operations, in a
//! fixed order, without panicking. The crate brings one scalar of its own,
//! the exact [`rational::Rational`], and proves over it what those
//! expressions mean in real arithmetic.
//!
//! The computation:
//!
//! - [`scalar`]: the arithmetic that everything else is written against.
//! - [`rational`]: exact fractions of 64 bits, with an undefined value.
//! - [`vector`]: vectors of fixed size and 3x3 matrices over a scalar.
//! - [`tableau`]: Butcher tableaux with exact coefficients; the classical
//!   method and the 3/8-rule.
//! - [`runge_kutta`]: the explicit Runge-Kutta step for any number of
//!   stages and any dimension; along a derivative that is a function of
//!   its arguments it has one result.
//! - [`rigid_body`]: Newtonian gravity, the Newton-Euler equations and the
//!   inverse of a symmetric 3x3 matrix.
//! - [`two_body`]: one tick of two bodies under their mutual gravity.
//!
//! The laws, all over `Rational`:
//!
//! - [`lowest_terms`], [`rational_laws`], [`square_roots`]: a result is
//!   defined exactly where the real result is a fraction of 64 bits, and
//!   then stands for it.
//! - [`runge_kutta_laws`]: the Runge-Kutta formula in real arithmetic; a
//!   step along a constant derivative is exact.
//! - [`rigid_body_laws`]: a symmetric matrix times its inverse is the
//!   identity, from either side; the power balance of Euler's equation.
//! - [`gravity_laws`]: gravity attracts; the inverse-square law and
//!   Newton's third law.
//! - [`momentum_laws`]: Newton's second law; a tick keeps the total
//!   momentum; two bodies at rest start to close in.
//! - [`real_algebra`]: the identities of real arithmetic behind them.

pub mod gravity_laws;
pub mod lowest_terms;
pub mod momentum_laws;
pub mod rational;
pub mod rational_laws;
pub mod real_algebra;
pub mod rigid_body;
pub mod rigid_body_laws;
pub mod runge_kutta;
pub mod runge_kutta_laws;
pub mod scalar;
pub mod square_roots;
pub mod tableau;
pub mod two_body;
pub mod vector;
