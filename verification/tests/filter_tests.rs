use edge_rules::errors::{RuntimeError, RuntimeErrorEnum};
use edge_rules::filters::{condition_keeps, filter_positions, select_position};

fn missing_field() -> RuntimeError {
    RuntimeError::field_not_found("age", "x")
}

fn failure() -> RuntimeError {
    RuntimeError::eval_error("boom".to_string())
}

#[test]
fn conditions_decide_what_is_kept() {
    assert_eq!(condition_keeps(Ok(Some(true))).unwrap(), true);
    assert_eq!(condition_keeps(Ok(Some(false))).unwrap(), false);
    assert_eq!(condition_keeps(Ok(None)).unwrap(), false);
    assert_eq!(condition_keeps(Err(missing_field())).unwrap(), false);
    assert_eq!(condition_keeps(Err(failure())).unwrap_err(), failure());
}

#[test]
fn filtering_keeps_positions_in_order() {
    // [1, 5, 12, 7][... > 6]
    let outcomes = vec![Ok(Some(false)), Ok(Some(false)), Ok(Some(true)), Ok(Some(true))];
    assert_eq!(filter_positions(outcomes).unwrap(), vec![2, 3]);

    let outcomes = vec![Ok(Some(true)), Err(missing_field()), Ok(None), Ok(Some(true))];
    assert_eq!(filter_positions(outcomes).unwrap(), vec![0, 3]);

    assert_eq!(filter_positions(Vec::new()).unwrap(), Vec::<usize>::new());
}

#[test]
fn filtering_stops_at_the_first_error() {
    let second = RuntimeError::eval_error("second".to_string());
    let outcomes = vec![Ok(Some(true)), Err(failure()), Err(second)];
    let e = filter_positions(outcomes).unwrap_err();
    assert_eq!(e.error, RuntimeErrorEnum::EvalError("boom".to_string()));
}

#[test]
fn selecting_by_position() {
    // [1,2,3][1] and past the end
    assert_eq!(select_position(3, Some(1), "1").unwrap(), Some(1));
    assert_eq!(select_position(3, Some(0), "0").unwrap(), Some(0));
    assert_eq!(select_position(3, Some(3), "3").unwrap(), None);
    assert_eq!(select_position(3, Some(-1), "-1").unwrap(), None);
    assert_eq!(select_position(0, Some(0), "0").unwrap(), None);
    let e = select_position(3, None, "'a'").unwrap_err();
    assert_eq!(e.error, RuntimeErrorEnum::EvalError("Cannot select a value with ''a''".to_string()));
}
