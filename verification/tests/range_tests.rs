use edge_rules::errors::RuntimeErrorEnum;
use edge_rules::ranges::{
    range_count, range_from_bounds, range_max, range_min, range_sum, range_to_code, range_values,
    IntegerRange,
};

#[test]
fn ranges_hold_both_bounds() {
    let r = range_from_bounds(1, 3);
    assert_eq!(r, IntegerRange { start: 1, end: 4 });
    assert_eq!(range_values(&r), vec![1, 2, 3]);
    assert_eq!(range_count(&r), 3);
    assert_eq!(range_min(&r).unwrap(), 1);
    assert_eq!(range_max(&r).unwrap(), 3);
    assert_eq!(range_sum(&r), 6);
    assert_eq!(range_to_code(&r), "1..3");
}

#[test]
fn negative_and_empty_ranges() {
    let r = range_from_bounds(-2, 2);
    assert_eq!(range_values(&r), vec![-2, -1, 0, 1, 2]);
    assert_eq!(range_sum(&r), 0);
    assert_eq!(range_to_code(&r), "-2..2");

    let empty = range_from_bounds(5, 1);
    assert_eq!(range_values(&empty), Vec::<i64>::new());
    assert_eq!(range_count(&empty), 0);
    assert_eq!(range_sum(&empty), 0);
    assert_eq!(
        range_min(&empty).unwrap_err().error,
        RuntimeErrorEnum::EvalError("Min is not implemented for this particular range".to_string())
    );
    assert_eq!(
        range_max(&empty).unwrap_err().error,
        RuntimeErrorEnum::EvalError("Max is not implemented for this particular range".to_string())
    );
    assert_eq!(range_to_code(&empty), "5..1");
}

#[test]
fn range_sum_matches_the_formula() {
    for (first, last) in [(1i64, 100i64), (-7, 12), (10, 10), (0, 0)] {
        let r = range_from_bounds(first, last);
        let count = last - first + 1;
        assert_eq!(2 * range_sum(&r), count * (first + last));
    }
    assert_eq!(range_count(&range_from_bounds(i64::MIN, 0)), (1u64 << 63) + 1);
}
