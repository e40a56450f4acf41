use rigid_rk::rational::Rational;
use rigid_rk::runge_kutta::{explicit, RungeKutta};
use rigid_rk::scalar::Scalar;
use rigid_rk::tableau::{ButcherTableau, ButcherTableauBuilder};

fn q(num: i64, den: i64) -> Rational {
    Rational::new(num, den)
}

fn raw(num: i64, den: i64) -> Rational {
    Rational { num, den }
}

fn sum(xs: &[Rational]) -> Rational {
    let mut s = q(0, 1);
    for x in xs {
        s = s.add(x);
    }
    s
}

/// The method of one stage at the start of the step, with the weight `b`.
fn one_stage(b: i64) -> ButcherTableau<1> {
    ButcherTableauBuilder {
        a_nums: [[0]],
        a_dens: [[1]],
        b_nums: [b],
        b_dens: [1],
        c_nums: [0],
        c_dens: [1],
    }
    .build()
}

fn check_valid(t: &ButcherTableau<4>) {
    assert_eq!(sum(t.b_table()), q(1, 1));
    for i in 0..4 {
        for j in i..4 {
            assert_eq!(t.a_table()[i][j], raw(0, 1));
        }
        assert!(t.b_table()[i].defined());
        assert!(t.c_table()[i].defined());
        // Each stage is evaluated where its row of `a` sums to.
        assert_eq!(sum(&t.a_table()[i]), t.c_table()[i]);
    }
    assert_eq!(t.c_table()[0], raw(0, 1));
}

#[test]
fn classical_tableau() {
    let t = ButcherTableau::explicit_4();
    assert_eq!(
        *t.a_table(),
        [
            [raw(0, 1), raw(0, 1), raw(0, 1), raw(0, 1)],
            [raw(1, 2), raw(0, 1), raw(0, 1), raw(0, 1)],
            [raw(0, 1), raw(1, 2), raw(0, 1), raw(0, 1)],
            [raw(0, 1), raw(0, 1), raw(1, 1), raw(0, 1)],
        ]
    );
    assert_eq!(*t.b_table(), [raw(1, 6), raw(1, 3), raw(1, 3), raw(1, 6)]);
    assert_eq!(*t.c_table(), [raw(0, 1), raw(1, 2), raw(1, 2), raw(1, 1)]);
    check_valid(&t);
}

#[test]
fn three_eighths_tableau() {
    let t = ButcherTableau::explicit_3_8();
    assert_eq!(
        *t.a_table(),
        [
            [raw(0, 1), raw(0, 1), raw(0, 1), raw(0, 1)],
            [raw(1, 3), raw(0, 1), raw(0, 1), raw(0, 1)],
            [raw(-1, 3), raw(1, 1), raw(0, 1), raw(0, 1)],
            [raw(1, 1), raw(-1, 1), raw(1, 1), raw(0, 1)],
        ]
    );
    assert_eq!(*t.b_table(), [raw(1, 8), raw(3, 8), raw(3, 8), raw(1, 8)]);
    assert_eq!(*t.c_table(), [raw(0, 1), raw(1, 3), raw(2, 3), raw(1, 1)]);
    check_valid(&t);
}

#[test]
fn both_names_give_the_same_tableaux() {
    let a = ButcherTableau::explicit_4();
    let b = ButcherTableau::explicit4();
    assert_eq!((a.a_table(), a.b_table(), a.c_table()), (b.a_table(), b.b_table(), b.c_table()));
    let a = ButcherTableau::explicit_3_8();
    let b = ButcherTableau::explicit38();
    assert_eq!((a.a_table(), a.b_table(), a.c_table()), (b.a_table(), b.b_table(), b.c_table()));
    let rk = RungeKutta::<4, 1>::explicit4();
    assert_eq!(rk.tableau().a_table(), ButcherTableau::explicit_4().a_table());
    assert_eq!(rk.tableau().b_table(), ButcherTableau::explicit_4().b_table());
    let rk = RungeKutta::<4, 1>::explicit38();
    assert_eq!(rk.tableau().a_table(), ButcherTableau::explicit_3_8().a_table());
    assert_eq!(rk.tableau().b_table(), ButcherTableau::explicit_3_8().b_table());
}

#[test]
fn constant_derivative_is_integrated_exactly() {
    let rate = [q(3, 2), q(-2, 1)];
    let f = |_t: &Rational, _y: &[Rational; 2]| rate;
    let y = [q(1, 1), q(5, 7)];
    for tableau in [ButcherTableau::explicit_4(), ButcherTableau::explicit_3_8()] {
        let (t, next) = explicit(&q(2, 1), &y, &f, q(1, 100), &tableau);
        assert_eq!(t, q(201, 100));
        assert_eq!(next, [q(203, 200), q(243, 350)]);
    }
}

#[test]
fn constant_derivative_with_a_negative_step() {
    let f = |_t: &Rational, _y: &[Rational; 1]| [q(4, 1)];
    let (t, next) = explicit(&q(0, 1), &[q(1, 1)], &f, q(-1, 8), &ButcherTableau::explicit_4());
    assert_eq!(t, q(-1, 8));
    assert_eq!(next, [q(1, 2)]);
}

#[test]
fn exponential_growth_by_the_classical_method() {
    let f = |_t: &Rational, y: &[Rational; 1]| *y;
    let tableau = ButcherTableau::explicit_4();
    let (t, y) = explicit(&q(0, 1), &[q(1, 1)], &f, q(1, 10), &tableau);
    assert_eq!(t, q(1, 10));
    // 1 + h + h^2/2 + h^3/6 + h^4/24 for h = 1/10.
    assert_eq!(y, [q(265241, 240000)]);
    let approx = y[0].num as f64 / y[0].den as f64;
    let exact = 0.1f64.exp();
    // The first neglected term of the series is h^5 / 120.
    assert!(approx < exact);
    assert!(exact - approx < 1.0e-5 / 120.0 * 1.1);
    assert!(exact - approx > 1.0e-5 / 120.0);
}

#[test]
fn exponential_growth_by_the_three_eighths_rule() {
    let f = |_t: &Rational, y: &[Rational; 1]| *y;
    let tableau = ButcherTableau::explicit_3_8();
    let (_, y) = explicit(&q(0, 1), &[q(1, 1)], &f, q(1, 10), &tableau);
    assert_eq!(y, [q(265241, 240000)]);
}

#[test]
fn derivative_that_depends_on_time() {
    // dy/dt = t^3 is integrated exactly by a fourth-order method.
    let f = |t: &Rational, _y: &[Rational; 1]| [t.mul(t).mul(t)];
    for tableau in [ButcherTableau::explicit_4(), ButcherTableau::explicit_3_8()] {
        let (t, y) = explicit(&q(1, 1), &[q(0, 1)], &f, q(1, 2), &tableau);
        assert_eq!(t, q(3, 2));
        // (3/2)^4 / 4 - 1 / 4
        assert_eq!(y, [q(65, 64)]);
    }
}

#[test]
fn stages_read_the_stages_before_them() {
    // dy/dt = (y1, -y0): each stage differs from the one before.
    let f = |_t: &Rational, y: &[Rational; 2]| [y[1], q(0, 1).sub(&y[0])];
    let (_, y) = explicit(
        &q(0, 1),
        &[q(1, 1), q(0, 1)],
        &f,
        q(1, 2),
        &ButcherTableau::explicit_3_8(),
    );
    // cos and -sin of 1/2 to fourth order: 1 - h^2/2 + h^4/24 and -(h - h^3/6).
    assert_eq!(y, [q(337, 384), q(-23, 48)]);
}

#[test]
fn integrate_returns_the_state_of_explicit() {
    let f = |_t: &Rational, y: &[Rational; 1]| *y;
    let rk = RungeKutta::<4, 1>::explicit4();
    assert_eq!(rk.integrate(q(0, 1), q(1, 10), &[q(1, 1)], &f), [q(265241, 240000)]);
    let rk = RungeKutta::<4, 1>::explicit38();
    assert_eq!(rk.integrate(q(0, 1), q(1, 10), &[q(1, 1)], &f), [q(265241, 240000)]);
}

#[test]
fn a_tableau_without_stages_leaves_the_state() {
    let tableau: ButcherTableau<0> = ButcherTableauBuilder {
        a_nums: [],
        a_dens: [],
        b_nums: [],
        b_dens: [],
        c_nums: [],
        c_dens: [],
    }
    .build();
    let f = |_t: &Rational, y: &[Rational; 2]| *y;
    let y = [q(1, 3), q(-2, 1)];
    let (t, next) = explicit(&q(1, 1), &y, &f, q(1, 4), &tableau);
    assert_eq!(t, q(5, 4));
    assert_eq!(next, y);
}

#[test]
fn euler_method_as_a_tableau_of_one_stage() {
    let tableau = one_stage(1);
    let f = |_t: &Rational, y: &[Rational; 1]| *y;
    let (_, y) = explicit(&q(0, 1), &[q(1, 1)], &f, q(1, 10), &tableau);
    assert_eq!(y, [q(11, 10)]);
}

#[test]
fn weights_that_do_not_sum_to_one_are_used_as_given() {
    let tableau = one_stage(2);
    let f = |_t: &Rational, _y: &[Rational; 1]| [q(1, 1)];
    let (_, y) = explicit(&q(0, 1), &[q(0, 1)], &f, q(1, 10), &tableau);
    assert_eq!(y, [q(1, 5)]);
}

#[test]
fn the_upper_triangle_of_a_tableau_is_not_read() {
    // The classical coefficients below the diagonal, others on and above it.
    let tableau = ButcherTableauBuilder {
        a_nums: [[7, 0, 0, 0], [1, 0, 0, 1], [0, 1, -5, 0], [0, 0, 1, 0]],
        a_dens: [[1, 1, 1, 1], [2, 1, 1, 0], [1, 2, 3, 1], [1, 1, 1, 1]],
        b_nums: [1, 1, 1, 1],
        b_dens: [6, 3, 3, 6],
        c_nums: [0, 1, 1, 1],
        c_dens: [1, 2, 2, 1],
    }
    .build();
    assert_eq!(tableau.b_table(), ButcherTableau::explicit_4().b_table());
    assert_eq!(tableau.a_table()[1][3], raw(1, 0));
    let f = |_t: &Rational, y: &[Rational; 1]| *y;
    let (_, y) = explicit(&q(0, 1), &[q(1, 1)], &f, q(1, 10), &tableau);
    assert_eq!(y, [q(265241, 240000)]);
}

#[test]
fn an_undefined_state_stays_undefined() {
    let f = |_t: &Rational, y: &[Rational; 2]| *y;
    let (t, y) = explicit(
        &q(0, 1),
        &[q(1, 1), q(1, 0)],
        &f,
        q(1, 10),
        &ButcherTableau::explicit_4(),
    );
    assert_eq!(t, q(1, 10));
    assert_eq!(y, [q(265241, 240000), raw(0, 0)]);
}

#[test]
fn a_step_out_of_range_is_undefined() {
    let f = |_t: &Rational, _y: &[Rational; 1]| [q(i64::MAX, 1)];
    let (_, y) = explicit(&q(0, 1), &[q(1, 1)], &f, q(2, 1), &ButcherTableau::explicit_4());
    assert_eq!(y, [raw(0, 0)]);
}

#[test]
fn sums_of_stage_derivatives() {
    let tableau = ButcherTableau::explicit_3_8();
    let ks = vec![[q(1, 1), q(2, 1)], [q(3, 1), q(-1, 1)], [q(1, 2), q(0, 1)], [q(8, 1), q(8, 1)]];
    assert_eq!(tableau.sum_a_k(0, &ks), [q(0, 1), q(0, 1)]);
    assert_eq!(tableau.sum_a_k(1, &ks), [q(1, 3), q(2, 3)]);
    assert_eq!(tableau.sum_a_k(2, &ks), [q(8, 3), q(-5, 3)]);
    assert_eq!(tableau.sum_a_k(3, &ks), [q(-3, 2), q(3, 1)]);
    assert_eq!(tableau.sum_b_k(&ks), [q(39, 16), q(7, 8)]);
}

#[test]
fn builder_puts_numerators_over_denominators() {
    let builder = ButcherTableauBuilder {
        a_nums: [[1, 2], [3, 4]],
        a_dens: [[5, 6], [7, 8]],
        b_nums: [9, -1],
        b_dens: [10, 3],
        c_nums: [0, 2],
        c_dens: [0, -4],
    };
    let t = builder.build();
    assert_eq!(*t.a_table(), [[raw(1, 5), raw(2, 6)], [raw(3, 7), raw(4, 8)]]);
    assert_eq!(*t.b_table(), [raw(9, 10), raw(-1, 3)]);
    assert_eq!(*t.c_table(), [raw(0, 0), raw(2, -4)]);
}

#[test]
fn midpoint_method_from_a_builder() {
    let builder = ButcherTableauBuilder {
        a_nums: [[0, 0], [1, 0]],
        a_dens: [[1, 1], [2, 1]],
        b_nums: [0, 1],
        b_dens: [1, 1],
        c_nums: [0, 1],
        c_dens: [1, 2],
    };
    let f = |_t: &Rational, y: &[Rational; 1]| *y;
    let (t, y) = explicit(&q(0, 1), &[q(1, 1)], &f, q(1, 10), &builder.build());
    assert_eq!(t, q(1, 10));
    assert_eq!(y, [q(221, 200)]);
}

#[test]
fn coefficients_need_not_be_in_lowest_terms() {
    let builder = ButcherTableauBuilder {
        a_nums: [[0, 0], [4, 0]],
        a_dens: [[7, 1], [8, 1]],
        b_nums: [0, -3],
        b_dens: [5, -3],
        c_nums: [0, 2],
        c_dens: [1, 4],
    };
    let f = |_t: &Rational, y: &[Rational; 1]| *y;
    let (_, y) = explicit(&q(0, 1), &[q(1, 1)], &f, q(1, 10), &builder.build());
    assert_eq!(y, [q(221, 200)]);
}

#[test]
fn a_coefficient_without_denominator_makes_the_step_undefined() {
    let builder = ButcherTableauBuilder {
        a_nums: [[0]],
        a_dens: [[1]],
        b_nums: [1],
        b_dens: [0],
        c_nums: [0],
        c_dens: [1],
    };
    let f = |_t: &Rational, y: &[Rational; 1]| *y;
    let (t, y) = explicit(&q(0, 1), &[q(1, 1)], &f, q(1, 10), &builder.build());
    assert_eq!(t, q(1, 10));
    assert_eq!(y, [raw(0, 0)]);
}
