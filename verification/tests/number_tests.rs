use edge_rules::numbers::{
    add_numbers, compare_exact_numbers, compare_numbers, eval_max_numbers, eval_min_numbers,
    eval_product_numbers, eval_sum_numbers, mul_numbers, pow_numbers, rem_numbers, sub_numbers, ExactNumber,
};
use edge_rules::operators::ComparatorEnum;
use edge_rules::types::SpecialValueEnum::{Missing, NotApplicable, NotFound};

fn whole(v: i64) -> ExactNumber {
    ExactNumber::Int(v)
}

fn sv(s: edge_rules::types::SpecialValueEnum) -> ExactNumber {
    ExactNumber::SV(s)
}

fn le(a: ExactNumber, b: ExactNumber) -> bool {
    compare_exact_numbers(&a, ComparatorEnum::LessEquals, &b)
}

fn gt(a: ExactNumber, b: ExactNumber) -> bool {
    compare_exact_numbers(&a, ComparatorEnum::Greater, &b)
}

fn ne(a: ExactNumber, b: ExactNumber) -> bool {
    compare_exact_numbers(&a, ComparatorEnum::NotEquals, &b)
}

fn eq(a: ExactNumber, b: ExactNumber) -> bool {
    compare_exact_numbers(&a, ComparatorEnum::Equals, &b)
}

fn less_equal_or_none(a: ExactNumber, b: ExactNumber) -> bool {
    matches!(
        compare_numbers(&a, &b),
        Some(std::cmp::Ordering::Less | std::cmp::Ordering::Equal) | None
    )
}

#[test]
fn test_numbers() {
    // Add
    assert_eq!(add_numbers(whole(10), sv(Missing)), whole(10));
    assert_eq!(add_numbers(sv(Missing), whole(10)), whole(10));
    assert_eq!(add_numbers(whole(10), whole(10)), whole(20));
    assert_eq!(add_numbers(sv(NotFound), whole(10)), sv(NotFound));

    // Rem
    assert_eq!(rem_numbers(whole(10), sv(Missing)), whole(10));
    assert_eq!(rem_numbers(sv(Missing), whole(10)), sv(Missing));
    assert_eq!(rem_numbers(whole(10), whole(10)), whole(0));
    assert_eq!(rem_numbers(sv(NotFound), whole(10)), sv(NotFound));

    assert!(le(whole(10), whole(10)));

    // Missing
    assert!(gt(whole(10), sv(Missing)));
    assert!(less_equal_or_none(sv(Missing), whole(10)));
    assert!(ne(sv(Missing), whole(10)));

    // NotApplicable
    assert!(less_equal_or_none(whole(10), sv(NotApplicable)));
    assert!(less_equal_or_none(sv(NotApplicable), whole(10)));
    assert!(ne(sv(NotApplicable), whole(10)));

    // NotFound
    assert!(less_equal_or_none(whole(10), sv(NotFound)));
    assert!(less_equal_or_none(sv(NotFound), whole(10)));
    assert!(ne(sv(NotFound), whole(10)));

    assert!(ne(sv(Missing), sv(NotFound)));
    assert!(ne(sv(Missing), sv(NotApplicable)));

    assert!(eq(sv(Missing), sv(Missing)));
    assert!(eq(sv(NotFound), sv(NotFound)));
    assert!(eq(sv(NotApplicable), sv(NotApplicable)));
}

#[test]
fn subtraction_and_products_with_special_values() {
    assert_eq!(sub_numbers(whole(10), whole(3)), whole(7));
    assert_eq!(sub_numbers(whole(10), sv(Missing)), whole(10));
    assert_eq!(sub_numbers(sv(Missing), whole(10)), whole(-10));
    assert_eq!(sub_numbers(sv(Missing), ExactNumber::Fraction(1, 2)), ExactNumber::Fraction(-1, 2));
    assert_eq!(sub_numbers(whole(1), sv(NotApplicable)), sv(NotApplicable));
    assert_eq!(mul_numbers(whole(6), whole(7)), whole(42));
    assert_eq!(mul_numbers(sv(Missing), whole(7)), whole(7));
    assert_eq!(mul_numbers(sv(NotFound), sv(NotApplicable)), sv(NotFound));
    assert_eq!(add_numbers(ExactNumber::Fraction(1, 2), whole(1)), sv(NotFound));
    assert_eq!(rem_numbers(whole(-7), whole(3)), whole(-1));
    assert_eq!(rem_numbers(whole(7), whole(-3)), whole(1));
}

#[test]
fn numbers_are_shown() {
    assert_eq!(whole(-42).to_code(), "-42");
    assert_eq!(ExactNumber::Fraction(1, 3).to_code(), "1/3");
    assert_eq!(sv(Missing).to_code(), "number.Missing");
    assert_eq!(whole(5).negate(), whole(-5));
    assert!(ExactNumber::Fraction(1, 3).has_remaining());
    assert!(!ExactNumber::Fraction(1, 0).has_remaining());
    assert!(!whole(3).has_remaining());
}

#[test]
fn sums_and_extremes_of_number_lists() {
    let values = vec![whole(3), whole(-1), whole(7), whole(2)];
    assert_eq!(eval_sum_numbers(&values), whole(11));
    assert_eq!(eval_max_numbers(&values), whole(7));
    assert_eq!(eval_min_numbers(&values), whole(-1));

    assert_eq!(eval_sum_numbers(&Vec::new()), sv(Missing));
    assert_eq!(eval_max_numbers(&Vec::new()), sv(Missing));
    assert_eq!(eval_min_numbers(&Vec::new()), sv(Missing));

    // a missing number gives way in a sum, and orders before every number
    let with_missing = vec![whole(3), sv(Missing), whole(4)];
    assert_eq!(eval_sum_numbers(&with_missing), whole(7));
    assert_eq!(eval_max_numbers(&with_missing), whole(4));
    assert_eq!(eval_min_numbers(&with_missing), sv(Missing));

    // another special value wins in a sum
    assert_eq!(eval_sum_numbers(&vec![whole(1), sv(NotFound), whole(2)]), sv(NotFound));
}

#[test]
fn products_of_number_lists() {
    assert_eq!(eval_product_numbers(&vec![whole(2), whole(3), whole(-4)]), whole(-24));
    assert_eq!(eval_product_numbers(&vec![whole(2), sv(Missing), whole(5)]), whole(10));
    assert_eq!(eval_product_numbers(&Vec::new()), sv(Missing));
}

#[test]
fn powers_of_whole_numbers() {
    assert_eq!(pow_numbers(whole(2), whole(10)).unwrap(), whole(1024));
    assert_eq!(pow_numbers(whole(-3), whole(3)).unwrap(), whole(-27));
    assert_eq!(pow_numbers(whole(0), whole(0)).unwrap(), whole(1));
    assert_eq!(pow_numbers(whole(0), whole(5)).unwrap(), whole(0));
    assert_eq!(pow_numbers(whole(7), whole(0)).unwrap(), whole(1));
    assert_eq!(pow_numbers(whole(-2), whole(63)).unwrap(), whole(i64::MIN));
    // the exponent is read as an unsigned 32-bit number
    assert_eq!(pow_numbers(whole(1), whole(-1)).unwrap(), whole(1));
    assert_eq!(pow_numbers(whole(-1), whole(-1)).unwrap(), whole(-1));
    let e = pow_numbers(sv(Missing), whole(2)).unwrap_err();
    assert_eq!(
        e.error,
        edge_rules::errors::RuntimeErrorEnum::EvalError(
            "Operator '^' is not implemented for 'number.Missing ^ 2'".to_string()
        )
    );
}
