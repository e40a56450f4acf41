//! The explicit Runge-Kutta step.
//!
//! One step from `(t, y)` with step size `h` evaluates the derivative `f`
//! once per stage `s`, in increasing order, at
//!
//! ```text
//! t_s = t + h * c[s]        y_s = y + h * (a[s][0] * k[0] + .. + a[s][s-1] * k[s-1])
//! ```
//!
//! stores `k[s] = f(t_s, y_s)`, and returns `t + h` and
//! `y + h * (b[0] * k[0] + .. + b[S-1] * k[S-1])`. Sums start from the zero
//! vector and run left to right.

use crate::rational::Rational;
use crate::scalar::Scalar;
use crate::tableau::ButcherTableau;
use crate::vector::{add_model, scale_model, zeros_model};
use vstd::prelude::*;

verus! {

/// The scalar that a tableau coefficient stands for.
pub open spec fn coeff_model<T: Scalar>(c: Rational) -> T {
    T::from_ratio_model(c.num, c.den)
}

/// `coeffs[0] * ks[0] + .. + coeffs[n-1] * ks[n-1]`, summed left to right
/// from the zero vector.
pub open spec fn weighted_sum<T: Scalar, const N: usize>(
    coeffs: Seq<Rational>,
    ks: Seq<[T; N]>,
    n: nat,
) -> Seq<T>
    decreases n,
{
    if n == 0 {
        zeros_model::<T>(N as nat)
    } else {
        add_model(
            weighted_sum(coeffs, ks, (n - 1) as nat),
            scale_model(coeff_model::<T>(coeffs[n - 1]), ks[n - 1]@),
        )
    }
}

/// The time at which stage `s` evaluates the derivative.
pub open spec fn stage_time<T: Scalar, const S: usize>(
    t: T,
    h: T,
    tableau: ButcherTableau<S>,
    s: int,
) -> T {
    t.add_model(h.mul_model(coeff_model::<T>(tableau.c()[s])))
}

/// The state at which stage `s` evaluates the derivative, given the
/// derivatives `ks` of the stages before it.
pub open spec fn stage_state<T: Scalar, const S: usize, const N: usize>(
    y: Seq<T>,
    h: T,
    tableau: ButcherTableau<S>,
    ks: Seq<[T; N]>,
    s: int,
) -> Seq<T> {
    add_model(y, scale_model(h, weighted_sum(tableau.a()[s], ks, s as nat)))
}

/// The state after the step, given the derivatives `ks` of all stages.
pub open spec fn step_state<T: Scalar, const S: usize, const N: usize>(
    y: Seq<T>,
    h: T,
    tableau: ButcherTableau<S>,
    ks: Seq<[T; N]>,
) -> Seq<T> {
    add_model(y, scale_model(h, weighted_sum(tableau.b(), ks, S as nat)))
}

/// `k` is what `f` returned for stage `s`, given the derivatives `ks` of
/// the stages before it.
pub open spec fn is_stage_derivative<
    T: Scalar,
    F: Fn(&T, &[T; N]) -> [T; N],
    const S: usize,
    const N: usize,
>(f: F, t: T, y: Seq<T>, h: T, tableau: ButcherTableau<S>, ks: Seq<[T; N]>, s: int, k: [
    T;
    N
]) -> bool {
    exists|y_s: [T; N]|
        y_s@ == stage_state(y, h, tableau, ks, s) && call_ensures(
            f,
            (&stage_time(t, h, tableau, s), &y_s),
            k,
        )
}

/// `ks` holds, stage by stage, what `f` returned during the step.
pub open spec fn is_stage_table<
    T: Scalar,
    F: Fn(&T, &[T; N]) -> [T; N],
    const S: usize,
    const N: usize,
>(f: F, t: T, y: Seq<T>, h: T, tableau: ButcherTableau<S>, ks: Seq<[T; N]>) -> bool {
    &&& ks.len() == S
    &&& forall|s: int|
        0 <= s < S ==> is_stage_derivative(f, t, y, h, tableau, ks, s, #[trigger] ks[s])
}

/// A weighted sum of the first `n` stages reads no later stage.
pub proof fn lemma_weighted_sum_prefix<T: Scalar, const N: usize>(
    coeffs: Seq<Rational>,
    ks1: Seq<[T; N]>,
    ks2: Seq<[T; N]>,
    n: nat,
)
    requires
        n <= ks1.len(),
        n <= ks2.len(),
        forall|j: int| 0 <= j < n ==> ks1[j] == ks2[j],
    ensures
        weighted_sum(coeffs, ks1, n) == weighted_sum(coeffs, ks2, n),
    decreases n,
{
    if n > 0 {
        lemma_weighted_sum_prefix(coeffs, ks1, ks2, (n - 1) as nat);
    }
}

/// The derivative is a function of its arguments: whatever `f` returns
/// for a time and a state, it returns that alone.
pub open spec fn is_function<T: Scalar, F: Fn(&T, &[T; N]) -> [T; N], const N: usize>(f: F) -> bool {
    forall|t: &T, y: &[T; N], k1: [T; N], k2: [T; N]|
        call_ensures(f, (t, y), k1) && call_ensures(f, (t, y), k2) ==> k1 == k2
}

/// Two tables of the stages of one step along a derivative that is a
/// function of its arguments agree in their first `n` stages.
pub proof fn lemma_stage_tables_agree<
    T: Scalar,
    F: Fn(&T, &[T; N]) -> [T; N],
    const S: usize,
    const N: usize,
>(f: F, t: T, y: Seq<T>, h: T, tableau: ButcherTableau<S>, ks1: Seq<[T; N]>, ks2: Seq<[T; N]>, n: nat)
    requires
        is_function(f),
        is_stage_table(f, t, y, h, tableau, ks1),
        is_stage_table(f, t, y, h, tableau, ks2),
        n <= S,
    ensures
        forall|s: int| 0 <= s < n ==> ks1[s] == ks2[s],
    decreases n,
{
    if n > 0 {
        let s = (n - 1) as int;
        lemma_stage_tables_agree(f, t, y, h, tableau, ks1, ks2, (n - 1) as nat);
        lemma_weighted_sum_prefix(tableau.a()[s], ks1, ks2, s as nat);
        assert(is_stage_derivative(f, t, y, h, tableau, ks1, s, ks1[s]));
        assert(is_stage_derivative(f, t, y, h, tableau, ks2, s, ks2[s]));
        let y1 = choose|y_s: [T; N]|
            y_s@ == stage_state(y, h, tableau, ks1, s) && call_ensures(
                f,
                (&stage_time(t, h, tableau, s), &y_s),
                ks1[s],
            );
        let y2 = choose|y_s: [T; N]|
            y_s@ == stage_state(y, h, tableau, ks2, s) && call_ensures(
                f,
                (&stage_time(t, h, tableau, s), &y_s),
                ks2[s],
            );
        assert(y1@ == y2@);
        assert(y1 =~= y2);
    }
}

/// A step along a derivative that is a function of its arguments has one
/// result: the new state is the same whichever table of the stages it is
/// taken from.
pub proof fn lemma_step_is_determined<
    T: Scalar,
    F: Fn(&T, &[T; N]) -> [T; N],
    const S: usize,
    const N: usize,
>(f: F, t: T, y: Seq<T>, h: T, tableau: ButcherTableau<S>, ks1: Seq<[T; N]>, ks2: Seq<[T; N]>)
    requires
        is_function(f),
        is_stage_table(f, t, y, h, tableau, ks1),
        is_stage_table(f, t, y, h, tableau, ks2),
    ensures
        ks1 == ks2,
        step_state(y, h, tableau, ks1) == step_state(y, h, tableau, ks2),
{
    lemma_stage_tables_agree(f, t, y, h, tableau, ks1, ks2, S as nat);
    assert(ks1 =~= ks2);
}

/// `coeffs[0] * ks[0] + .. + coeffs[n-1] * ks[n-1]`.
fn weighted_sum_of<T: Scalar, const S: usize, const N: usize>(
    coeffs: &[Rational; S],
    ks: &Vec<[T; N]>,
    n: usize,
) -> (sum: [T; N])
    requires
        n <= S,
        n <= ks.len(),
    ensures
        sum@ == weighted_sum(coeffs@, ks@, n as nat),
{
    let mut sum: [T; N] = crate::vector::zeros::<T, N>();
    for idx in 0..n
        invariant
            n <= S,
            n <= ks.len(),
            sum@ == weighted_sum(coeffs@, ks@, idx as nat),
    {
        let c = T::from_ratio(coeffs[idx].num, coeffs[idx].den);
        let term = crate::vector::scale(&c, &ks[idx]);
        sum = crate::vector::add(&sum, &term);
    }
    sum
}

impl<const S: usize> ButcherTableau<S> {
    /// The sum of the derivatives `k_table` of the stages before
    /// `stage_num`, weighted by row `stage_num` of `a_table`.
    pub fn sum_a_k<T: Scalar, const N: usize>(&self, stage_num: usize, k_table: &Vec<[T; N]>) -> (sum:
        [T; N])
        requires
            stage_num < S,
            stage_num <= k_table.len(),
        ensures
            sum@ == weighted_sum(self.a()[stage_num as int], k_table@, stage_num as nat),
    {
        weighted_sum_of(&self.a_table()[stage_num], k_table, stage_num)
    }

    /// The sum of the derivatives `k_table` of all stages, weighted by
    /// `b_table`.
    pub fn sum_b_k<T: Scalar, const N: usize>(&self, k_table: &Vec<[T; N]>) -> (sum: [T; N])
        requires
            S <= k_table.len(),
        ensures
            sum@ == weighted_sum(self.b(), k_table@, S as nat),
    {
        weighted_sum_of(self.b_table(), k_table, S)
    }
}

/// Advances `y_prev` at time `t_prev` by one step of size `h` along the
/// derivative `f`, and returns the new time and state.
///
/// `f` must accept every time and state. It is called once per stage, in
/// the order of the stages. The tableau is used as it is given: nothing on
/// or above the diagonal of `a_table` is read, and weights that do not sum
/// to one are weights all the same.
pub fn explicit<T: Scalar, F: Fn(&T, &[T; N]) -> [T; N], const S: usize, const N: usize>(
    t_prev: &T,
    y_prev: &[T; N],
    f: &F,
    h: T,
    tableau: &ButcherTableau<S>,
) -> (next: (T, [T; N]))
    requires
        forall|t: &T, y: &[T; N]| call_requires(f, (t, y)),
    ensures
        next.0 == t_prev.add_model(h),
        exists|ks: Seq<[T; N]>|
            is_stage_table(*f, *t_prev, y_prev@, h, *tableau, ks) && next.1@ == step_state(
                y_prev@,
                h,
                *tableau,
                ks,
            ),
{
    let mut k_table: Vec<[T; N]> = Vec::new();
    for stage_num in 0..S
        invariant
            forall|t: &T, y: &[T; N]| call_requires(f, (t, y)),
            k_table.len() == stage_num,
            forall|s: int|
                0 <= s < stage_num ==> is_stage_derivative(
                    *f,
                    *t_prev,
                    y_prev@,
                    h,
                    *tableau,
                    k_table@,
                    s,
                    #[trigger] k_table@[s],
                ),
    {
        let c = T::from_ratio(tableau.c_table()[stage_num].num, tableau.c_table()[stage_num].den);
        let del_t_s = h.mul(&c);
        let sum = tableau.sum_a_k(stage_num, &k_table);
        let del_y_s = crate::vector::scale(&h, &sum);
        let t_curr_s = t_prev.add(&del_t_s);
        let y_curr_s = crate::vector::add(y_prev, &del_y_s);
        let k = f(&t_curr_s, &y_curr_s);
        let ghost before = k_table@;
        k_table.push(k);
        proof {
            let after = k_table@;
            assert forall|s: int| 0 <= s <= stage_num implies is_stage_derivative(
                *f,
                *t_prev,
                y_prev@,
                h,
                *tableau,
                after,
                s,
                #[trigger] after[s],
            ) by {
                lemma_weighted_sum_prefix(tableau.a()[s], before, after, s as nat);
                if s < stage_num {
                    let y_s = choose|y_s: [T; N]|
                        y_s@ == stage_state(y_prev@, h, *tableau, before, s) && call_ensures(
                            *f,
                            (&stage_time(*t_prev, h, *tableau, s), &y_s),
                            before[s],
                        );
                    assert(y_s@ == stage_state(y_prev@, h, *tableau, after, s));
                } else {
                    assert(y_curr_s@ == stage_state(y_prev@, h, *tableau, after, s));
                }
            }
        }
    }
    let sum = tableau.sum_b_k(&k_table);
    let del_y = crate::vector::scale(&h, &sum);
    let t_next = t_prev.add(&h);
    let y_next = crate::vector::add(y_prev, &del_y);
    proof {
        assert(k_table@.len() == S);
        assert(is_stage_table(*f, *t_prev, y_prev@, h, *tableau, k_table@));
        assert(y_next@ == step_state(y_prev@, h, *tableau, k_table@));
    }
    (t_next, y_next)
}

/// An integrator that steps states of dimension `N` by a method of `S`
/// stages.
#[derive(Clone, Copy, Debug)]
pub struct RungeKutta<const S: usize, const N: usize> {
    tableau: ButcherTableau<S>,
}

impl<const S: usize, const N: usize> RungeKutta<S, N> {
    /// The coefficients of the method.
    pub closed spec fn method(self) -> ButcherTableau<S> {
        self.tableau
    }

    /// The coefficients of the method.
    pub fn tableau(&self) -> (t: &ButcherTableau<S>)
        ensures
            *t == self.method(),
    {
        &self.tableau
    }

    /// The state one step of size `h` after the state `y` at time `t`,
    /// along the derivative `f`, which must accept every time and state.
    pub fn integrate<T: Scalar, F: Fn(&T, &[T; N]) -> [T; N]>(
        &self,
        t: T,
        h: T,
        y: &[T; N],
        f: &F,
    ) -> (y_next: [T; N])
        requires
            forall|t: &T, y: &[T; N]| call_requires(f, (t, y)),
        ensures
            exists|ks: Seq<[T; N]>|
                is_stage_table(*f, t, y@, h, self.method(), ks) && y_next@ == step_state(
                    y@,
                    h,
                    self.method(),
                    ks,
                ),
    {
        let next = explicit(&t, y, f, h, &self.tableau);
        proof {
            let ks = choose|ks: Seq<[T; N]>|
                is_stage_table(*f, t, y@, h, self.tableau, ks) && next.1@ == step_state(
                    y@,
                    h,
                    self.tableau,
                    ks,
                );
            assert(is_stage_table(*f, t, y@, h, self.method(), ks));
        }
        next.1
    }
}

impl<const N: usize> RungeKutta<4, N> {
    /// The integrator of the classical fourth-order method.
    pub fn explicit4() -> (rk: Self)
        ensures
            rk.method().classical(),
            rk.method().is_valid(),
    {
        RungeKutta { tableau: ButcherTableau::explicit4() }
    }

    /// The integrator of the 3/8-rule.
    pub fn explicit38() -> (rk: Self)
        ensures
            rk.method().three_eighths(),
            rk.method().is_valid(),
    {
        RungeKutta { tableau: ButcherTableau::explicit38() }
    }
}

} // verus!
