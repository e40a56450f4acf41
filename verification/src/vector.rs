//! Fixed-size vector arithmetic over a [`Scalar`].

use crate::scalar::Scalar;
use vstd::prelude::*;

verus! {

/// The vector of `n` zeros.
pub open spec fn zeros_model<T: Scalar>(n: nat) -> Seq<T> {
    Seq::new(n, |i: int| T::from_ratio_model(0, 1))
}

/// The componentwise sum.
pub open spec fn add_model<T: Scalar>(a: Seq<T>, b: Seq<T>) -> Seq<T> {
    Seq::new(a.len(), |i: int| a[i].add_model(b[i]))
}

/// Every component multiplied by `c` from the left.
pub open spec fn scale_model<T: Scalar>(c: T, a: Seq<T>) -> Seq<T> {
    Seq::new(a.len(), |i: int| c.mul_model(a[i]))
}

/// The componentwise difference.
pub open spec fn sub_model<T: Scalar>(a: Seq<T>, b: Seq<T>) -> Seq<T> {
    Seq::new(a.len(), |i: int| a[i].sub_model(b[i]))
}

/// Every component divided by `c`.
pub open spec fn unscale_model<T: Scalar>(a: Seq<T>, c: T) -> Seq<T> {
    Seq::new(a.len(), |i: int| a[i].div_model(c))
}

/// The dot product of two vectors of three components, summed left to
/// right.
pub open spec fn dot_model<T: Scalar>(a: Seq<T>, b: Seq<T>) -> T {
    a[0].mul_model(b[0]).add_model(a[1].mul_model(b[1])).add_model(a[2].mul_model(b[2]))
}

/// The cross product of two vectors of three components.
pub open spec fn cross_model<T: Scalar>(a: Seq<T>, b: Seq<T>) -> Seq<T> {
    seq![
        a[1].mul_model(b[2]).sub_model(a[2].mul_model(b[1])),
        a[2].mul_model(b[0]).sub_model(a[0].mul_model(b[2])),
        a[0].mul_model(b[1]).sub_model(a[1].mul_model(b[0])),
    ]
}

/// The squared Euclidean length of a vector of three components.
pub open spec fn norm_squared_model<T: Scalar>(a: Seq<T>) -> T {
    dot_model(a, a)
}

/// The vector of three components divided by its Euclidean length.
pub open spec fn normalize_model<T: Scalar>(a: Seq<T>) -> Seq<T> {
    unscale_model(a, norm_squared_model(a).sqrt_model())
}

/// The rows of a 3x3 matrix.
pub open spec fn rows<T>(m: [[T; 3]; 3]) -> Seq<Seq<T>> {
    seq![m@[0]@, m@[1]@, m@[2]@]
}

/// The product of a 3x3 matrix, given by its rows, and a vector.
pub open spec fn mat_vec_model<T: Scalar>(m: Seq<Seq<T>>, v: Seq<T>) -> Seq<T> {
    seq![dot_model(m[0], v), dot_model(m[1], v), dot_model(m[2], v)]
}

/// The zero vector of dimension `N`.
pub fn zeros<T: Scalar, const N: usize>() -> (r: [T; N])
    ensures
        r@ == zeros_model::<T>(N as nat),
{
    let z = T::from_ratio(0, 1);
    let r: [T; N] = [z; N];
    assert(r@ =~= zeros_model::<T>(N as nat));
    r
}

/// The componentwise sum of `a` and `b`.
pub fn add<T: Scalar, const N: usize>(a: &[T; N], b: &[T; N]) -> (r: [T; N])
    ensures
        r@ == add_model(a@, b@),
{
    let mut r: [T; N] = *a;
    for i in 0..N
        invariant
            forall|j: int| 0 <= j < i ==> r@[j] == a@[j].add_model(b@[j]),
            forall|j: int| i <= j < N ==> r@[j] == a@[j],
    {
        let x = a[i].add(&b[i]);
        r[i] = x;
    }
    assert(r@ =~= add_model(a@, b@));
    r
}

/// `a` with every component multiplied by `c`.
pub fn scale<T: Scalar, const N: usize>(c: &T, a: &[T; N]) -> (r: [T; N])
    ensures
        r@ == scale_model(*c, a@),
{
    let mut r: [T; N] = *a;
    for i in 0..N
        invariant
            forall|j: int| 0 <= j < i ==> r@[j] == c.mul_model(a@[j]),
            forall|j: int| i <= j < N ==> r@[j] == a@[j],
    {
        let x = c.mul(&a[i]);
        r[i] = x;
    }
    assert(r@ =~= scale_model(*c, a@));
    r
}

/// The componentwise difference of `a` and `b`.
pub fn sub<T: Scalar, const N: usize>(a: &[T; N], b: &[T; N]) -> (r: [T; N])
    ensures
        r@ == sub_model(a@, b@),
{
    let mut r: [T; N] = *a;
    for i in 0..N
        invariant
            forall|j: int| 0 <= j < i ==> r@[j] == a@[j].sub_model(b@[j]),
            forall|j: int| i <= j < N ==> r@[j] == a@[j],
    {
        let x = a[i].sub(&b[i]);
        r[i] = x;
    }
    assert(r@ =~= sub_model(a@, b@));
    r
}

/// `a` with every component divided by `c`.
pub fn unscale<T: Scalar, const N: usize>(a: &[T; N], c: &T) -> (r: [T; N])
    ensures
        r@ == unscale_model(a@, *c),
{
    let mut r: [T; N] = *a;
    for i in 0..N
        invariant
            forall|j: int| 0 <= j < i ==> r@[j] == a@[j].div_model(*c),
            forall|j: int| i <= j < N ==> r@[j] == a@[j],
    {
        let x = a[i].div(c);
        r[i] = x;
    }
    assert(r@ =~= unscale_model(a@, *c));
    r
}

/// The dot product of `a` and `b`.
pub fn dot<T: Scalar>(a: &[T; 3], b: &[T; 3]) -> (r: T)
    ensures
        r == dot_model(a@, b@),
{
    a[0].mul(&b[0]).add(&a[1].mul(&b[1])).add(&a[2].mul(&b[2]))
}

/// The cross product of `a` and `b`.
pub fn cross<T: Scalar>(a: &[T; 3], b: &[T; 3]) -> (r: [T; 3])
    ensures
        r@ == cross_model(a@, b@),
{
    let r = [
        a[1].mul(&b[2]).sub(&a[2].mul(&b[1])),
        a[2].mul(&b[0]).sub(&a[0].mul(&b[2])),
        a[0].mul(&b[1]).sub(&a[1].mul(&b[0])),
    ];
    assert(r@ =~= cross_model(a@, b@));
    r
}

/// The squared Euclidean length of `a`.
pub fn norm_squared<T: Scalar>(a: &[T; 3]) -> (r: T)
    ensures
        r == norm_squared_model(a@),
{
    dot(a, a)
}

/// `a` divided by its Euclidean length.
pub fn normalize<T: Scalar>(a: &[T; 3]) -> (r: [T; 3])
    ensures
        r@ == normalize_model(a@),
{
    let n = norm_squared(a).sqrt();
    unscale(a, &n)
}

/// The product of the matrix `m`, given by its rows, and the vector `v`.
pub fn mat_vec<T: Scalar>(m: &[[T; 3]; 3], v: &[T; 3]) -> (r: [T; 3])
    ensures
        r@ == mat_vec_model(rows(*m), v@),
{
    let r = [dot(&m[0], v), dot(&m[1], v), dot(&m[2], v)];
    assert(r@ =~= mat_vec_model(rows(*m), v@));
    r
}

} // verus!
