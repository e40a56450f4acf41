use rigid_rk::rational::Rational;
use rigid_rk::scalar::Scalar;

fn q(num: i64, den: i64) -> Rational {
    Rational::new(num, den)
}

const UNDEFINED: Rational = Rational { num: 0, den: 0 };

#[test]
fn new_reduces_to_lowest_terms() {
    assert_eq!(q(6, 8), Rational { num: 3, den: 4 });
    assert_eq!(q(0, 5), Rational { num: 0, den: 1 });
    assert_eq!(q(-10, 4), Rational { num: -5, den: 2 });
}

#[test]
fn new_makes_the_denominator_positive() {
    assert_eq!(q(1, -2), Rational { num: -1, den: 2 });
    assert_eq!(q(-3, -9), Rational { num: 1, den: 3 });
}

#[test]
fn new_with_zero_denominator_is_undefined() {
    assert_eq!(q(1, 0), UNDEFINED);
    assert_eq!(q(0, 0), UNDEFINED);
    assert!(!q(1, 0).defined());
    assert!(q(1, 1).defined());
}

#[test]
fn new_at_the_edge_of_the_range() {
    assert_eq!(q(i64::MIN, 1), Rational { num: i64::MIN, den: 1 });
    // 2^63 has no 64-bit numerator.
    assert_eq!(q(i64::MIN, -1), UNDEFINED);
    assert_eq!(q(i64::MIN, i64::MIN), Rational { num: 1, den: 1 });
    assert_eq!(q(i64::MAX, i64::MAX), Rational { num: 1, den: 1 });
    // -2^63 / -2 = 2^62.
    assert_eq!(q(i64::MIN, -2), Rational { num: 1 << 62, den: 1 });
    // 1 / -2^63 would need the denominator 2^63.
    assert_eq!(q(1, i64::MIN), UNDEFINED);
}

#[test]
fn from_ratio_is_new() {
    assert_eq!(Rational::from_ratio(4, 6), q(2, 3));
    assert_eq!(Rational::from_ratio(1, 0), UNDEFINED);
}

#[test]
fn sums() {
    assert_eq!(q(1, 2).add(&q(1, 3)), q(5, 6));
    assert_eq!(q(1, 6).add(&q(1, 3)), q(1, 2));
    assert_eq!(q(1, 2).add(&q(-1, 2)), q(0, 1));
    assert_eq!(q(i64::MAX, 1).add(&q(-1, 1)), q(i64::MAX - 1, 1));
}

#[test]
fn differences() {
    assert_eq!(q(1, 2).sub(&q(1, 3)), q(1, 6));
    assert_eq!(q(1, 3).sub(&q(1, 2)), q(-1, 6));
    assert_eq!(q(i64::MIN, 1).sub(&q(-1, 1)), q(i64::MIN + 1, 1));
}

#[test]
fn products() {
    assert_eq!(q(2, 3).mul(&q(3, 4)), q(1, 2));
    assert_eq!(q(-2, 3).mul(&q(3, 2)), q(-1, 1));
    assert_eq!(q(0, 1).mul(&q(7, 9)), q(0, 1));
    // The factors cancel before the range is tested.
    assert_eq!(q(i64::MAX, 3).mul(&q(3, i64::MAX)), q(1, 1));
}

#[test]
fn quotients() {
    assert_eq!(q(1, 2).div(&q(3, 4)), q(2, 3));
    assert_eq!(q(1, 2).div(&q(-3, 4)), q(-2, 3));
    assert_eq!(q(0, 1).div(&q(5, 1)), q(0, 1));
}

#[test]
fn division_by_zero_is_undefined() {
    assert_eq!(q(1, 2).div(&q(0, 1)), UNDEFINED);
    assert_eq!(q(0, 1).div(&q(0, 1)), UNDEFINED);
}

#[test]
fn results_out_of_range_are_undefined() {
    assert_eq!(q(i64::MAX, 1).add(&q(1, 1)), UNDEFINED);
    assert_eq!(q(i64::MIN, 1).sub(&q(1, 1)), UNDEFINED);
    assert_eq!(q(i64::MAX, 1).mul(&q(2, 1)), UNDEFINED);
    assert_eq!(q(1, i64::MAX).mul(&q(1, 2)), UNDEFINED);
    assert_eq!(q(1, i64::MAX).add(&q(1, 2)), UNDEFINED);
    assert_eq!(q(i64::MAX, 1).div(&q(1, 2)), UNDEFINED);
    // -2^63 is in range, 2^63 is not.
    assert_eq!(q(1 << 62, 1).mul(&q(-2, 1)), q(i64::MIN, 1));
    assert_eq!(q(1 << 62, 1).mul(&q(2, 1)), UNDEFINED);
}

#[test]
fn an_undefined_operand_makes_the_result_undefined() {
    let one = q(1, 1);
    assert_eq!(UNDEFINED.add(&one), UNDEFINED);
    assert_eq!(one.add(&UNDEFINED), UNDEFINED);
    assert_eq!(UNDEFINED.sub(&one), UNDEFINED);
    assert_eq!(one.sub(&UNDEFINED), UNDEFINED);
    assert_eq!(UNDEFINED.mul(&q(0, 1)), UNDEFINED);
    assert_eq!(q(0, 1).mul(&UNDEFINED), UNDEFINED);
    assert_eq!(UNDEFINED.div(&one), UNDEFINED);
    assert_eq!(one.div(&UNDEFINED), UNDEFINED);
    assert_eq!(UNDEFINED.sqrt(), UNDEFINED);
}

#[test]
fn a_denominator_that_is_not_positive_is_undefined() {
    let odd = Rational { num: -4, den: -1 };
    assert!(!odd.defined());
    assert_eq!(odd.add(&q(1, 1)), UNDEFINED);
    assert_eq!(q(1, 1).mul(&odd), UNDEFINED);
    assert_eq!(odd.sqrt(), UNDEFINED);
}

#[test]
fn operands_need_not_be_in_lowest_terms() {
    let half = Rational { num: 2, den: 4 };
    assert_eq!(half.add(&half), q(1, 1));
    assert_eq!(half.mul(&half), q(1, 4));
    assert_eq!(Rational { num: 8, den: 18 }.sqrt(), q(2, 3));
}

#[test]
fn square_roots() {
    assert_eq!(q(4, 1).sqrt(), q(2, 1));
    assert_eq!(q(9, 16).sqrt(), q(3, 4));
    assert_eq!(q(0, 1).sqrt(), q(0, 1));
    assert_eq!(q(1, 1).sqrt(), q(1, 1));
    let r: i64 = 3_037_000_499;
    assert_eq!(q(r * r, 1).sqrt(), q(r, 1));
    assert_eq!(q(1, r * r).sqrt(), q(1, r));
    assert_eq!(q(r * r - 1, 1).sqrt(), UNDEFINED);
}

#[test]
fn square_roots_that_are_not_rational_are_undefined() {
    assert_eq!(q(2, 1).sqrt(), UNDEFINED);
    assert_eq!(q(1, 2).sqrt(), UNDEFINED);
    assert_eq!(q(4, 3).sqrt(), UNDEFINED);
    assert_eq!(q(i64::MAX, 1).sqrt(), UNDEFINED);
}

#[test]
fn square_roots_of_negative_numbers_are_undefined() {
    assert_eq!(q(-4, 1).sqrt(), UNDEFINED);
    assert_eq!(q(-1, 9).sqrt(), UNDEFINED);
}

#[test]
fn the_field_laws_hold_on_small_fractions() {
    let xs = [q(1, 2), q(-2, 3), q(5, 7), q(0, 1), q(9, 4)];
    for a in xs {
        for b in xs {
            assert_eq!(a.add(&b), b.add(&a));
            assert_eq!(a.mul(&b), b.mul(&a));
            assert_eq!(a.add(&b).sub(&b), a);
            if b.num != 0 {
                assert_eq!(a.mul(&b).div(&b), a);
            }
            for c in xs {
                assert_eq!(a.add(&b).add(&c), a.add(&b.add(&c)));
                assert_eq!(a.mul(&b.add(&c)), a.mul(&b).add(&a.mul(&c)));
            }
        }
    }
}
