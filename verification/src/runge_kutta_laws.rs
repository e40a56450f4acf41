//! Laws of the Runge-Kutta step over the exact scalar [`Rational`].

use crate::rational::Rational;
use crate::rational_laws::group_rational_values;
use crate::real_algebra::lemma_distribute_two;
use crate::runge_kutta::{
    coeff_model, is_stage_derivative, is_stage_table, stage_state, step_state, weighted_sum,
};
use crate::scalar::Scalar;
use crate::tableau::{sum_values, ButcherTableau};
use crate::vector::{add_model, scale_model, zeros_model};
use vstd::prelude::*;

verus! {

/// A weighted sum of stage derivatives has the dimension of the state.
pub proof fn lemma_weighted_sum_len<const N: usize>(
    coeffs: Seq<Rational>,
    ks: Seq<[Rational; N]>,
    n: nat,
)
    ensures
        weighted_sum(coeffs, ks, n).len() == N,
    decreases n,
{
    if n > 0 {
        lemma_weighted_sum_len(coeffs, ks, (n - 1) as nat);
    }
}

/// The real weighted sum `coeffs[0] * ks[0][i] + .. + coeffs[n-1] * ks[n-1][i]`.
pub open spec fn real_weighted_sum<const N: usize>(
    coeffs: Seq<Rational>,
    ks: Seq<[Rational; N]>,
    n: nat,
    i: int,
) -> real
    decreases n,
{
    if n == 0 {
        0real
    } else {
        real_weighted_sum(coeffs, ks, (n - 1) as nat, i) + coeffs[n - 1].value() * ks[n - 1]@[i].value()
    }
}

/// A defined component of a weighted sum of stage derivatives stands for
/// the real weighted sum.
pub proof fn lemma_weighted_sum_value<const N: usize>(
    coeffs: Seq<Rational>,
    ks: Seq<[Rational; N]>,
    n: nat,
    i: int,
)
    requires
        0 <= i < N,
        weighted_sum(coeffs, ks, n)[i].is_defined(),
    ensures
        weighted_sum(coeffs, ks, n)[i].value() == real_weighted_sum(coeffs, ks, n, i),
    decreases n,
{
    broadcast use group_rational_values;

    if n == 0 {
        let zero = Rational::from_ratio_model(0, 1);
        assert(weighted_sum(coeffs, ks, n)[i] == zero);
        assert(zero.value() == 0real) by (nonlinear_arith)
            requires
                zero.value() == 0int as real / 1int as real,
        ;
    } else {
        let m = (n - 1) as nat;
        let w = weighted_sum(coeffs, ks, m);
        let c = coeff_model::<Rational>(coeffs[n - 1]);
        let term = scale_model(c, ks[n - 1]@);
        lemma_weighted_sum_len(coeffs, ks, m);
        assert(weighted_sum(coeffs, ks, n) == add_model(w, term));
        assert(add_model(w, term)[i] == w[i].add_model(term[i]));
        assert(term[i] == c.mul_model(ks[n - 1]@[i]));
        lemma_weighted_sum_value(coeffs, ks, m, i);
        assert(c.value() == coeffs[n - 1].value());
    }
}

/// The Runge-Kutta formula: a defined component of the new state is that
/// of the old state plus the step size times the weighted sum, by the
/// weights of the tableau, of that component of the stage derivatives.
pub proof fn lemma_step_value<const S: usize, const N: usize>(
    y: [Rational; N],
    h: Rational,
    tableau: ButcherTableau<S>,
    ks: Seq<[Rational; N]>,
    i: int,
)
    requires
        0 <= i < N,
        step_state(y@, h, tableau, ks)[i].is_defined(),
    ensures
        step_state(y@, h, tableau, ks)[i].value() == y@[i].value() + h.value() * real_weighted_sum(
            tableau.b(),
            ks,
            S as nat,
            i,
        ),
{
    broadcast use group_rational_values;

    let w = weighted_sum(tableau.b(), ks, S as nat);
    lemma_weighted_sum_len(tableau.b(), ks, S as nat);
    let inc = scale_model(h, w);
    assert(step_state(y@, h, tableau, ks) == add_model(y@, inc));
    assert(add_model(y@, inc)[i] == y@[i].add_model(inc[i]));
    assert(inc[i] == h.mul_model(w[i]));
    lemma_weighted_sum_value(tableau.b(), ks, S as nat, i);
}

/// The state at which a stage evaluates the derivative: a defined
/// component is that of the old state plus the step size times the
/// weighted sum, by row `s` of the tableau, of that component of the
/// derivatives of the stages before `s`.
pub proof fn lemma_stage_value<const S: usize, const N: usize>(
    y: [Rational; N],
    h: Rational,
    tableau: ButcherTableau<S>,
    ks: Seq<[Rational; N]>,
    s: int,
    i: int,
)
    requires
        0 <= s < S,
        0 <= i < N,
        stage_state(y@, h, tableau, ks, s)[i].is_defined(),
    ensures
        stage_state(y@, h, tableau, ks, s)[i].value() == y@[i].value() + h.value()
            * real_weighted_sum(tableau.a()[s], ks, s as nat, i),
{
    broadcast use group_rational_values;

    let w = weighted_sum(tableau.a()[s], ks, s as nat);
    lemma_weighted_sum_len(tableau.a()[s], ks, s as nat);
    let inc = scale_model(h, w);
    assert(stage_state(y@, h, tableau, ks, s) == add_model(y@, inc));
    assert(add_model(y@, inc)[i] == y@[i].add_model(inc[i]));
    assert(inc[i] == h.mul_model(w[i]));
    lemma_weighted_sum_value(tableau.a()[s], ks, s as nat, i);
}

/// Where every stage derivative is the same `rate`, the real weighted sum
/// is the sum of the weights times the component of `rate`.
pub proof fn lemma_weighted_sum_of_constant<const N: usize>(
    coeffs: Seq<Rational>,
    ks: Seq<[Rational; N]>,
    rate: [Rational; N],
    n: nat,
    i: int,
)
    requires
        n <= ks.len(),
        forall|j: int| 0 <= j < n ==> ks[j] == rate,
    ensures
        real_weighted_sum(coeffs, ks, n, i) == sum_values(coeffs, n) * rate@[i].value(),
    decreases n,
{
    let r = rate@[i].value();
    if n == 0 {
        lemma_distribute_two(0real, 0real, r);
    } else {
        let m = (n - 1) as nat;
        lemma_weighted_sum_of_constant(coeffs, ks, rate, m, i);
        lemma_distribute_two(sum_values(coeffs, m), coeffs[n - 1].value(), r);
    }
}

/// A step along a constant derivative is exact: where `f` returns `rate`
/// whatever the time and the state, and the weights of the tableau sum to
/// one, every defined component of the new state is that of the old state
/// plus the step size times that of `rate`.
pub proof fn lemma_constant_rate_step<
    F: Fn(&Rational, &[Rational; N]) -> [Rational; N],
    const S: usize,
    const N: usize,
>(
    f: F,
    t: Rational,
    y: [Rational; N],
    h: Rational,
    tableau: ButcherTableau<S>,
    ks: Seq<[Rational; N]>,
    rate: [Rational; N],
    i: int,
)
    requires
        tableau.is_consistent(),
        is_stage_table(f, t, y@, h, tableau, ks),
        forall|t: &Rational, y: &[Rational; N], k: [Rational; N]|
            call_ensures(f, (t, y), k) ==> k == rate,
        0 <= i < N,
        step_state(y@, h, tableau, ks)[i].is_defined(),
    ensures
        step_state(y@, h, tableau, ks)[i].value() == y@[i].value() + h.value() * rate@[i].value(),
{
    assert forall|s: int| 0 <= s < S implies ks[s] == rate by {
        assert(is_stage_derivative(f, t, y@, h, tableau, ks, s, ks[s]));
    }
    lemma_step_value(y, h, tableau, ks, i);
    lemma_weighted_sum_of_constant(tableau.b(), ks, rate, S as nat, i);
    lemma_distribute_two(0real, 0real, rate@[i].value());
}

} // verus!
