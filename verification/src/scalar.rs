//! The arithmetic that the integrator and the dynamics are written against.

use vstd::prelude::*;

verus! {

/// A number type with the four field operations and a square root.
///
/// Every operation is a function of its operands: the executable method
/// returns exactly what its `*_model` companion names, on every input and
/// without panicking. What a type does where the mathematical result has
/// no representation is its own choice, and part of its model: the exact
/// [`Rational`](crate::rational::Rational) yields an undefined value, a
/// floating-point number would round, overflow to an infinity or yield a
/// not-a-number.
///
/// Code that is generic over `Scalar` is proved to compute a fixed
/// expression in these operations, in a fixed order. What that expression
/// means over the real numbers is a property of the type; for `Rational`
/// it is proved in the `*_laws` modules.
///
/// Outside Verus the `*_model` functions are ordinary associated
/// functions: an implementation writes each as the computation itself and
/// lets the operation call it.
pub trait Scalar: Copy {
    /// What [`Scalar::from_ratio`] returns.
    spec fn from_ratio_model(num: i64, den: i64) -> Self;

    /// What [`Scalar::add`] returns.
    spec fn add_model(self, rhs: Self) -> Self;

    /// What [`Scalar::sub`] returns.
    spec fn sub_model(self, rhs: Self) -> Self;

    /// What [`Scalar::mul`] returns.
    spec fn mul_model(self, rhs: Self) -> Self;

    /// What [`Scalar::div`] returns.
    spec fn div_model(self, rhs: Self) -> Self;

    /// What [`Scalar::sqrt`] returns.
    spec fn sqrt_model(self) -> Self;

    /// The scalar for the fraction `num / den`.
    fn from_ratio(num: i64, den: i64) -> (r: Self)
        ensures
            r == Self::from_ratio_model(num, den),
    ;

    /// The sum `self + rhs`.
    fn add(&self, rhs: &Self) -> (r: Self)
        ensures
            r == self.add_model(*rhs),
    ;

    /// The difference `self - rhs`.
    fn sub(&self, rhs: &Self) -> (r: Self)
        ensures
            r == self.sub_model(*rhs),
    ;

    /// The product `self * rhs`.
    fn mul(&self, rhs: &Self) -> (r: Self)
        ensures
            r == self.mul_model(*rhs),
    ;

    /// The quotient `self / rhs`.
    fn div(&self, rhs: &Self) -> (r: Self)
        ensures
            r == self.div_model(*rhs),
    ;

    /// The square root of `self` that is not negative.
    fn sqrt(&self) -> (r: Self)
        ensures
            r == self.sqrt_model(),
    ;
}

} // verus!
