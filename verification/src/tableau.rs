//! Butcher tableaux of explicit Runge-Kutta methods, with exact rational
//! coefficients. A tableau is taken as it is given: whether it describes a
//! consistent explicit method is for [`ButcherTableau::is_valid`] to say,
//! and it does of the two tableaux that this module supplies.
//!
//! ```text
//!  c1 | a11 a12  .. a1S
//!  c2 | a21 a22  .. a2S
//!  .. |  ..  ..  ..  ..
//!  cS | aS1 aS2  .. aSS
//! ----+-----------------
//!     |  b1  b2  ..  bS
//! ```

use crate::rational::Rational;
use vstd::prelude::*;

verus! {

/// The coefficients of a Runge-Kutta method with `S` stages. Once built,
/// a tableau is read only.
#[derive(Clone, Copy, Debug)]
pub struct ButcherTableau<const S: usize> {
    /// `a_table[s][j]` weighs stage `j` in the state offset of stage `s`.
    a_table: [[Rational; S]; S],
    /// `b_table[s]` weighs stage `s` in the final increment.
    b_table: [Rational; S],
    /// `c_table[s]` is the time offset of stage `s`, as a fraction of the step.
    c_table: [Rational; S],
}

impl<const S: usize> ButcherTableau<S> {
    /// The rows of `a_table`.
    pub closed spec fn a(self) -> Seq<Seq<Rational>> {
        Seq::new(S as nat, |i: int| self.a_table@[i]@)
    }

    /// The weights `b_table`.
    pub closed spec fn b(self) -> Seq<Rational> {
        self.b_table@
    }

    /// The time offsets `c_table`.
    pub closed spec fn c(self) -> Seq<Rational> {
        self.c_table@
    }

    /// A tableau of `S` stages has `S` rows of `S` coefficients, `S`
    /// weights and `S` time offsets.
    pub proof fn lemma_dimensions(self)
        ensures
            self.a().len() == S,
            forall|i: int| 0 <= i < S ==> (#[trigger] self.a()[i]).len() == S,
            self.b().len() == S,
            self.c().len() == S,
    {
    }

    /// The coefficients `a_table`, by rows.
    pub fn a_table(&self) -> (r: &[[Rational; S]; S])
        ensures
            forall|i: int| 0 <= i < S ==> (#[trigger] r@[i])@ == self.a()[i],
    {
        &self.a_table
    }

    /// The weights `b_table`.
    pub fn b_table(&self) -> (r: &[Rational; S])
        ensures
            r@ == self.b(),
    {
        &self.b_table
    }

    /// The time offsets `c_table`.
    pub fn c_table(&self) -> (r: &[Rational; S])
        ensures
            r@ == self.c(),
    {
        &self.c_table
    }
}

/// The real sum of the first `n` coefficients.
pub open spec fn sum_values(coeffs: Seq<Rational>, n: nat) -> real
    decreases n,
{
    if n == 0 {
        0real
    } else {
        sum_values(coeffs, (n - 1) as nat) + coeffs[n - 1].value()
    }
}

/// The fraction `num / den`, taken as written.
pub open spec fn frac(num: int, den: int) -> Rational {
    Rational { num: num as i64, den: den as i64 }
}

impl<const S: usize> ButcherTableau<S> {
    /// Every coefficient is a number.
    pub open spec fn is_defined(self) -> bool {
        &&& forall|i: int, j: int|
            0 <= i < S && 0 <= j < S ==> (#[trigger] self.a()[i][j]).is_defined()
        &&& forall|i: int| 0 <= i < S ==> (#[trigger] self.b()[i]).is_defined()
        &&& forall|i: int| 0 <= i < S ==> (#[trigger] self.c()[i]).is_defined()
    }

    /// The method is explicit: no stage depends on itself or on a later
    /// stage, so `a_table` is zero on and above the diagonal.
    pub open spec fn is_explicit(self) -> bool {
        forall|i: int, j: int|
            0 <= i <= j < S ==> (#[trigger] self.a()[i][j]).num == 0
    }

    /// The method is consistent: the weights `b_table` sum to one.
    pub open spec fn is_consistent(self) -> bool {
        sum_values(self.b(), S as nat) == 1real
    }

    /// The first stage is evaluated at the start of the step.
    pub open spec fn starts_at_zero(self) -> bool {
        S > 0 ==> self.c()[0].num == 0
    }

    /// What a tableau must satisfy to describe a consistent explicit method.
    pub open spec fn is_valid(self) -> bool {
        &&& self.is_defined()
        &&& self.is_explicit()
        &&& self.is_consistent()
        &&& self.starts_at_zero()
    }
}

/// The numerators and the denominators of the coefficients of a tableau,
/// a table of each.
#[derive(Clone, Copy, Debug)]
pub struct ButcherTableauBuilder<const S: usize> {
    /// The numerators of `a_table`.
    pub a_nums: [[i64; S]; S],
    /// The denominators of `a_table`.
    pub a_dens: [[i64; S]; S],
    /// The numerators of `b_table`.
    pub b_nums: [i64; S],
    /// The denominators of `b_table`.
    pub b_dens: [i64; S],
    /// The numerators of `c_table`.
    pub c_nums: [i64; S],
    /// The denominators of `c_table`.
    pub c_dens: [i64; S],
}

/// The fractions `nums[i] / dens[i]`, taken as written.
pub open spec fn fractions(nums: Seq<i64>, dens: Seq<i64>) -> Seq<Rational> {
    Seq::new(nums.len(), |i: int| frac(nums[i] as int, dens[i] as int))
}

/// Each numerator over its denominator.
fn component_div<const S: usize>(nums: &[i64; S], dens: &[i64; S]) -> (r: [Rational; S])
    ensures
        r@ == fractions(nums@, dens@),
{
    let mut r: [Rational; S] = [Rational { num: 0, den: 1 }; S];
    for i in 0..S
        invariant
            forall|j: int| 0 <= j < i ==> r@[j] == frac(nums@[j] as int, dens@[j] as int),
    {
        r[i] = Rational { num: nums[i], den: dens[i] };
    }
    assert(r@ =~= fractions(nums@, dens@));
    r
}

impl<const S: usize> ButcherTableau<S> {
    /// The tableau of zeros.
    fn new() -> (t: Self)
        ensures
            forall|i: int, j: int|
                0 <= i < S && 0 <= j < S ==> (#[trigger] t.a()[i][j]) == frac(0, 1),
            forall|i: int| 0 <= i < S ==> (#[trigger] t.b()[i]) == frac(0, 1),
            forall|i: int| 0 <= i < S ==> (#[trigger] t.c()[i]) == frac(0, 1),
    {
        let zero = Rational { num: 0, den: 1 };
        let row: [Rational; S] = [zero; S];
        Self { a_table: [row; S], b_table: row, c_table: row }
    }
}

impl<const S: usize> ButcherTableauBuilder<S> {
    /// Whether `t` holds, entry by entry, the numerators of this builder
    /// over its denominators.
    pub open spec fn builds(self, t: ButcherTableau<S>) -> bool {
        &&& forall|i: int|
            0 <= i < S ==> #[trigger] t.a()[i] == fractions(
                self.a_nums@[i]@,
                self.a_dens@[i]@,
            )
        &&& t.b() == fractions(self.b_nums@, self.b_dens@)
        &&& t.c() == fractions(self.c_nums@, self.c_dens@)
    }

    /// The tableau of the numerators over the denominators.
    pub fn build(&self) -> (tableau: ButcherTableau<S>)
        ensures
            self.builds(tableau),
    {
        let mut tableau = ButcherTableau::new();
        let mut a_table = tableau.a_table;
        for i in 0..S
            invariant
                forall|j: int|
                    0 <= j < i ==> (#[trigger] a_table@[j])@ == fractions(
                        self.a_nums@[j]@,
                        self.a_dens@[j]@,
                    ),
        {
            a_table[i] = component_div(&self.a_nums[i], &self.a_dens[i]);
        }
        tableau.a_table = a_table;
        tableau.b_table = component_div(&self.b_nums, &self.b_dens);
        tableau.c_table = component_div(&self.c_nums, &self.c_dens);
        assert forall|i: int| 0 <= i < S implies #[trigger] tableau.a()[i] == fractions(
            self.a_nums@[i]@,
            self.a_dens@[i]@,
        ) by {
            assert(tableau.a()[i] == a_table@[i]@);
        }
        tableau
    }
}

impl ButcherTableau<4> {
    /// The coefficients of the classical fourth-order method.
    pub open spec fn classical(self) -> bool {
        &&& self.a()[0] == seq![frac(0, 1), frac(0, 1), frac(0, 1), frac(0, 1)]
        &&& self.a()[1] == seq![frac(1, 2), frac(0, 1), frac(0, 1), frac(0, 1)]
        &&& self.a()[2] == seq![frac(0, 1), frac(1, 2), frac(0, 1), frac(0, 1)]
        &&& self.a()[3] == seq![frac(0, 1), frac(0, 1), frac(1, 1), frac(0, 1)]
        &&& self.b() == seq![frac(1, 6), frac(1, 3), frac(1, 3), frac(1, 6)]
        &&& self.c() == seq![frac(0, 1), frac(1, 2), frac(1, 2), frac(1, 1)]
    }

    /// The coefficients of the 3/8-rule.
    pub open spec fn three_eighths(self) -> bool {
        &&& self.a()[0] == seq![frac(0, 1), frac(0, 1), frac(0, 1), frac(0, 1)]
        &&& self.a()[1] == seq![frac(1, 3), frac(0, 1), frac(0, 1), frac(0, 1)]
        &&& self.a()[2] == seq![frac(-1, 3), frac(1, 1), frac(0, 1), frac(0, 1)]
        &&& self.a()[3] == seq![frac(1, 1), frac(-1, 1), frac(1, 1), frac(0, 1)]
        &&& self.b() == seq![frac(1, 8), frac(3, 8), frac(3, 8), frac(1, 8)]
        &&& self.c() == seq![frac(0, 1), frac(1, 3), frac(2, 3), frac(1, 1)]
    }

    /// The classical fourth-order Runge-Kutta method.
    pub fn explicit_4() -> (t: Self)
        ensures
            t.classical(),
            t.is_valid(),
    {
        let builder = ButcherTableauBuilder {
            a_nums: [[0, 0, 0, 0], [1, 0, 0, 0], [0, 1, 0, 0], [0, 0, 1, 0]],
            a_dens: [[1, 1, 1, 1], [2, 1, 1, 1], [1, 2, 1, 1], [1, 1, 1, 1]],
            b_nums: [1, 1, 1, 1],
            b_dens: [6, 3, 3, 6],
            c_nums: [0, 1, 1, 1],
            c_dens: [1, 2, 2, 1],
        };
        let t = builder.build();
        proof {
            assert(t.a()[0] =~= seq![frac(0, 1), frac(0, 1), frac(0, 1), frac(0, 1)]);
            assert(t.a()[1] =~= seq![frac(1, 2), frac(0, 1), frac(0, 1), frac(0, 1)]);
            assert(t.a()[2] =~= seq![frac(0, 1), frac(1, 2), frac(0, 1), frac(0, 1)]);
            assert(t.a()[3] =~= seq![frac(0, 1), frac(0, 1), frac(1, 1), frac(0, 1)]);
            assert(t.b() =~= seq![frac(1, 6), frac(1, 3), frac(1, 3), frac(1, 6)]);
            assert(t.c() =~= seq![frac(0, 1), frac(1, 2), frac(1, 2), frac(1, 1)]);
            lemma_classical_is_valid(t);
        }
        t
    }

    /// The 3/8-rule, the other fourth-order method of four stages.
    pub fn explicit_3_8() -> (t: Self)
        ensures
            t.three_eighths(),
            t.is_valid(),
    {
        let builder = ButcherTableauBuilder {
            a_nums: [[0, 0, 0, 0], [1, 0, 0, 0], [-1, 1, 0, 0], [1, -1, 1, 0]],
            a_dens: [[1, 1, 1, 1], [3, 1, 1, 1], [3, 1, 1, 1], [1, 1, 1, 1]],
            b_nums: [1, 3, 3, 1],
            b_dens: [8, 8, 8, 8],
            c_nums: [0, 1, 2, 1],
            c_dens: [1, 3, 3, 1],
        };
        let t = builder.build();
        proof {
            assert(t.a()[0] =~= seq![frac(0, 1), frac(0, 1), frac(0, 1), frac(0, 1)]);
            assert(t.a()[1] =~= seq![frac(1, 3), frac(0, 1), frac(0, 1), frac(0, 1)]);
            assert(t.a()[2] =~= seq![frac(-1, 3), frac(1, 1), frac(0, 1), frac(0, 1)]);
            assert(t.a()[3] =~= seq![frac(1, 1), frac(-1, 1), frac(1, 1), frac(0, 1)]);
            assert(t.b() =~= seq![frac(1, 8), frac(3, 8), frac(3, 8), frac(1, 8)]);
            assert(t.c() =~= seq![frac(0, 1), frac(1, 3), frac(2, 3), frac(1, 1)]);
            lemma_three_eighths_is_valid(t);
        }
        t
    }

    /// The classical fourth-order Runge-Kutta method.
    pub fn explicit4() -> (t: Self)
        ensures
            t.classical(),
            t.is_valid(),
    {
        Self::explicit_4()
    }

    /// The 3/8-rule.
    pub fn explicit38() -> (t: Self)
        ensures
            t.three_eighths(),
            t.is_valid(),
    {
        Self::explicit_3_8()
    }
}

/// The sum of four coefficients, written out.
proof fn lemma_sum_of_four(b: Seq<Rational>)
    ensures
        sum_values(b, 4) == 0real + b[0].value() + b[1].value() + b[2].value() + b[3].value(),
{
    reveal_with_fuel(sum_values, 5);
}

/// The classical tableau is explicit and consistent.
pub proof fn lemma_classical_is_valid(t: ButcherTableau<4>)
    requires
        t.classical(),
    ensures
        t.is_valid(),
{
    lemma_sum_of_four(t.b());
    let b = t.b();
    assert(b[0] == frac(1, 6) && b[1] == frac(1, 3) && b[2] == frac(1, 3) && b[3] == frac(1, 6));
    assert(1int as real / 6int as real + 1int as real / 3int as real + 1int as real / 3int as real
        + 1int as real / 6int as real == 1real) by (nonlinear_arith);
    assert(t.is_consistent());
}

/// The 3/8-rule tableau is explicit and consistent.
pub proof fn lemma_three_eighths_is_valid(t: ButcherTableau<4>)
    requires
        t.three_eighths(),
    ensures
        t.is_valid(),
{
    lemma_sum_of_four(t.b());
    let b = t.b();
    assert(b[0] == frac(1, 8) && b[1] == frac(3, 8) && b[2] == frac(3, 8) && b[3] == frac(1, 8));
    assert(1int as real / 8int as real + 3int as real / 8int as real + 3int as real / 8int as real
        + 1int as real / 8int as real == 1real) by (nonlinear_arith);
    assert(t.is_consistent());
}

} // verus!
