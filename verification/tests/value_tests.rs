use edge_rules::duration::DurationValue;
use edge_rules::errors::{RuntimeError, RuntimeErrorEnum};
use edge_rules::numbers::ExactNumber;
use edge_rules::operators::{ComparatorEnum, MathOperatorEnum};
use edge_rules::temporal::{CalendarDate, CalendarDateTime, ClockTime};
use edge_rules::types::{SpecialValueEnum, StringEnum, ValueOrSv, ValueType};
use edge_rules::errors::LinkingErrorEnum;
use edge_rules::values::{
    browse_value, cast_value, missing_for_type, eval_comparison, eval_math, select_field, select_from_list, ArrayValue,
    ValueEnum,
};

fn num(v: i64) -> ValueEnum {
    ValueEnum::NumberValue(ExactNumber::Int(v))
}

fn text(s: &str) -> ValueEnum {
    ValueEnum::StringValue(StringEnum::String(s.to_string()))
}

fn date(year: i32, month: u8, day: u8) -> ValueEnum {
    ValueEnum::DateValue(ValueOrSv::Value(CalendarDate { year, month, day }))
}

fn clock(hour: u8, minute: u8, second: u8) -> ValueEnum {
    ValueEnum::TimeValue(ValueOrSv::Value(ClockTime { hour, minute, second }))
}

fn datetime(year: i32, month: u8, day: u8, hour: u8, minute: u8, second: u8) -> ValueEnum {
    ValueEnum::DateTimeValue(ValueOrSv::Value(CalendarDateTime {
        date: CalendarDate { year, month, day },
        time: ClockTime { hour, minute, second },
    }))
}

fn seconds(s: i128) -> ValueEnum {
    ValueEnum::DurationValue(ValueOrSv::Value(DurationValue::DaysTime { seconds: s }))
}

fn numbers(values: &[i64]) -> ArrayValue {
    ArrayValue::PrimitivesArray {
        values: values.iter().map(|v| num(*v)).collect(),
        item_type: ValueType::NumberType,
    }
}

fn items(array: &ArrayValue) -> Vec<ValueEnum> {
    match array {
        ArrayValue::EmptyUntyped => Vec::new(),
        ArrayValue::PrimitivesArray { values, .. } => values
            .iter()
            .map(|v| match v {
                ValueEnum::NumberValue(n) => ValueEnum::NumberValue(*n),
                _ => panic!("numbers only"),
            })
            .collect(),
    }
}

fn filter_greater(values: &[i64], bound: i64) -> Result<ValueEnum, RuntimeError> {
    let array = numbers(values);
    let outcomes = items(&array)
        .iter()
        .map(|v| eval_comparison(ComparatorEnum::Greater, v, &num(bound)).map(Some))
        .collect();
    select_from_list(array, outcomes)
}

fn filter_less(values: &[i64], bound: i64) -> Result<ValueEnum, RuntimeError> {
    let array = numbers(values);
    let outcomes = items(&array)
        .iter()
        .map(|v| eval_comparison(ComparatorEnum::Less, v, &num(bound)).map(Some))
        .collect();
    select_from_list(array, outcomes)
}

fn list_of(values: &[i64]) -> ValueEnum {
    ValueEnum::Array(numbers(values))
}

fn message(e: RuntimeError) -> String {
    match e.error {
        RuntimeErrorEnum::EvalError(m) => m,
        other => panic!("unexpected error {:?}", other),
    }
}

#[test]
fn test_constraints() {
    assert_eq!(filter_greater(&[1, 2, 3], 1).unwrap(), list_of(&[2, 3]));
    assert_eq!(filter_greater(&[1, 2, 3], 0).unwrap(), list_of(&[1, 2, 3]));
    assert_eq!(filter_greater(&[1, 2, 3], -5).unwrap(), list_of(&[1, 2, 3]));
    assert_eq!(filter_less(&[1, 2, 3], -5).unwrap(), list_of(&[]));
    assert_eq!(filter_greater(&[1, 5, 12, 7], 6).unwrap(), list_of(&[12, 7]));
}

#[test]
fn filtering_stops_on_the_first_error() {
    let array = numbers(&[1, 2, 3]);
    let outcomes = vec![
        Ok(Some(true)),
        Err(RuntimeError::eval_error("boom".to_string())),
        Err(RuntimeError::eval_error("later".to_string())),
    ];
    assert_eq!(message(select_from_list(array, outcomes).unwrap_err()), "boom");

    let array = numbers(&[1, 2, 3]);
    let outcomes = vec![Ok(None), Err(RuntimeError::field_not_found("a", "x")), Ok(Some(true))];
    assert_eq!(select_from_list(array, outcomes).unwrap(), list_of(&[3]));

    let empty = select_from_list(ArrayValue::EmptyUntyped, Vec::new()).unwrap();
    assert_eq!(empty, ValueEnum::Array(ArrayValue::EmptyUntyped));
}

#[test]
fn comparisons_of_values() {
    assert!(eval_comparison(ComparatorEnum::Less, &num(1), &num(2)).unwrap());
    assert!(!eval_comparison(ComparatorEnum::GreaterEquals, &num(1), &num(2)).unwrap());
    assert!(eval_comparison(ComparatorEnum::Equals, &text("a"), &text("a")).unwrap());
    assert!(eval_comparison(ComparatorEnum::NotEquals, &text("a"), &text("b")).unwrap());
    assert!(eval_comparison(
        ComparatorEnum::Equals,
        &ValueEnum::BooleanValue(true),
        &ValueEnum::BooleanValue(true)
    )
    .unwrap());
    assert!(eval_comparison(ComparatorEnum::Less, &date(2017, 5, 3), &date(2017, 5, 4)).unwrap());
    assert!(eval_comparison(ComparatorEnum::Greater, &clock(12, 0, 1), &clock(12, 0, 0)).unwrap());
    assert!(eval_comparison(
        ComparatorEnum::LessEquals,
        &datetime(2017, 5, 3, 10, 0, 0),
        &datetime(2017, 5, 3, 10, 0, 0)
    )
    .unwrap());
}

#[test]
fn comparisons_that_do_not_apply() {
    let e = eval_comparison(ComparatorEnum::Less, &text("a"), &text("b")).unwrap_err();
    assert_eq!(message(e), "Not possible to compare 'a' < 'b'");
    let e = eval_comparison(ComparatorEnum::Equals, &num(1), &text("b")).unwrap_err();
    assert_eq!(message(e), "Not possible to compare 1 = 'b'");
    let e = eval_comparison(ComparatorEnum::Greater, &ValueEnum::BooleanValue(true), &num(1))
        .unwrap_err();
    assert_eq!(message(e), "Not possible to compare true > 1");
    let e = eval_comparison(ComparatorEnum::Equals, &date(2017, 5, 3), &num(1)).unwrap_err();
    assert_eq!(message(e), "Not possible to compare 2017-05-03 = 1");
    let e = eval_comparison(ComparatorEnum::Equals, &list_of(&[1, 2]), &num(1)).unwrap_err();
    assert_eq!(message(e), "Not possible to compare [1, 2] = 1");
}

#[test]
fn arithmetic_on_numbers_and_strings() {
    assert_eq!(eval_math(MathOperatorEnum::Addition, &num(2), &num(3)).unwrap(), num(5));
    assert_eq!(eval_math(MathOperatorEnum::Subtraction, &num(2), &num(3)).unwrap(), num(-1));
    assert_eq!(eval_math(MathOperatorEnum::Multiplication, &num(4), &num(3)).unwrap(), num(12));
    assert_eq!(eval_math(MathOperatorEnum::Modulus, &num(7), &num(3)).unwrap(), num(1));
    assert_eq!(eval_math(MathOperatorEnum::Power, &num(2), &num(10)).unwrap(), num(1024));
    assert_eq!(eval_math(MathOperatorEnum::Division, &num(0), &num(4)).unwrap(), num(0));
    let missing = ValueEnum::NumberValue(ExactNumber::SV(SpecialValueEnum::Missing));
    assert_eq!(eval_math(MathOperatorEnum::Addition, &missing, &num(3)).unwrap(), num(3));
    assert_eq!(eval_math(MathOperatorEnum::Division, &missing, &num(3)).unwrap(), missing);
    assert_eq!(
        eval_math(MathOperatorEnum::Addition, &text("ab"), &text("cd")).unwrap(),
        text("abcd")
    );
    let e = eval_math(MathOperatorEnum::Subtraction, &text("ab"), &text("cd")).unwrap_err();
    assert_eq!(message(e), "Operator '-' is not implemented for ''ab' - 'cd''");
}

#[test]
fn arithmetic_on_dates_times_and_durations() {
    assert_eq!(
        eval_math(MathOperatorEnum::Subtraction, &date(2017, 5, 4), &date(2017, 5, 3)).unwrap(),
        seconds(86400)
    );
    assert_eq!(
        eval_math(MathOperatorEnum::Subtraction, &clock(12, 0, 0), &clock(11, 30, 0)).unwrap(),
        seconds(1800)
    );
    assert_eq!(
        eval_math(
            MathOperatorEnum::Subtraction,
            &datetime(2017, 5, 4, 1, 0, 0),
            &datetime(2017, 5, 3, 23, 0, 0)
        )
        .unwrap(),
        seconds(7200)
    );
    assert_eq!(
        eval_math(MathOperatorEnum::Addition, &date(2017, 5, 3), &seconds(86400)).unwrap(),
        date(2017, 5, 4)
    );
    assert_eq!(
        eval_math(MathOperatorEnum::Addition, &seconds(86400), &date(2017, 5, 3)).unwrap(),
        date(2017, 5, 4)
    );
    assert_eq!(
        eval_math(MathOperatorEnum::Subtraction, &clock(0, 0, 1), &seconds(2)).unwrap(),
        clock(23, 59, 59)
    );
    assert_eq!(
        eval_math(MathOperatorEnum::Addition, &date(2017, 5, 3), &datetime(2020, 1, 1, 10, 30, 0))
            .unwrap(),
        datetime(2017, 5, 3, 10, 30, 0)
    );
    assert_eq!(
        eval_math(MathOperatorEnum::Addition, &seconds(60), &seconds(30)).unwrap(),
        seconds(90)
    );
    let e = eval_math(MathOperatorEnum::Multiplication, &seconds(60), &seconds(30)).unwrap_err();
    assert_eq!(message(e), "Unsupported operator '*' for duration values");
    let e = eval_math(
        MathOperatorEnum::Multiplication,
        &date(2017, 5, 3),
        &datetime(2020, 1, 1, 10, 30, 0),
    )
    .unwrap_err();
    assert_eq!(message(e), "Unsupported operator for date and datetime");
    let e = eval_math(MathOperatorEnum::Addition, &date(2017, 5, 3), &date(2017, 5, 3)).unwrap_err();
    assert_eq!(message(e), "Operator '+' is not implemented for '2017-05-03 + 2017-05-03'");
}

#[test]
fn casting_to_list_types() {
    let list_of_numbers = ValueType::ListType(Box::new(ValueType::NumberType));
    let untyped_list = ValueType::ListType(Box::new(ValueType::UndefinedType));
    assert_eq!(cast_value(num(5), &ValueType::NumberType), num(5));
    assert_eq!(cast_value(num(5), &list_of_numbers), list_of(&[5]));
    assert_eq!(
        cast_value(ValueEnum::Array(ArrayValue::EmptyUntyped), &list_of_numbers),
        ValueEnum::Array(ArrayValue::PrimitivesArray { values: Vec::new(), item_type: ValueType::NumberType })
    );
    assert_eq!(
        cast_value(ValueEnum::Array(ArrayValue::EmptyUntyped), &untyped_list),
        ValueEnum::Array(ArrayValue::EmptyUntyped)
    );
    assert_eq!(cast_value(list_of(&[1, 2]), &untyped_list), list_of(&[1, 2]));
    assert_eq!(
        cast_value(text("a"), &untyped_list),
        ValueEnum::Array(ArrayValue::PrimitivesArray {
            values: vec![text("a")],
            item_type: ValueType::StringType
        })
    );
}

#[test]
fn values_are_shown_as_in_code() {
    assert_eq!(num(-3).to_display(), "-3");
    assert_eq!(text("a").to_display(), "'a'");
    assert_eq!(clock(9, 5, 0).to_display(), "9:05:00.0");
    assert_eq!(datetime(2017, 5, 3, 9, 5, 0).to_display(), "2017-05-03 9:05:00.0");
    assert_eq!(seconds(90).to_display(), "PT1M30S");
    assert_eq!(list_of(&[1, 2, 3]).to_display(), "[1, 2, 3]");
    assert_eq!(ValueEnum::Array(ArrayValue::EmptyUntyped).to_display(), "[]");
}

#[test]
fn fields_of_dates_and_times() {
    assert_eq!(select_field(&date(2018, 10, 11), "weekday", "d").unwrap(), num(4));
    assert_eq!(select_field(&date(2018, 10, 11), "month", "d").unwrap(), num(10));
    assert_eq!(select_field(&clock(9, 5, 7), "second", "t").unwrap(), num(7));
    assert_eq!(
        select_field(&datetime(2017, 5, 3, 9, 5, 7), "time", "dt").unwrap(),
        clock(9, 5, 7)
    );
    assert_eq!(select_field(&datetime(2017, 5, 3, 9, 5, 7), "hour", "dt").unwrap(), num(9));
    match select_field(&date(2018, 10, 11), "hour", "d").unwrap_err().error {
        RuntimeErrorEnum::RuntimeFieldNotFound(field, object) => {
            assert_eq!(field, "hour");
            assert_eq!(object, "date");
        }
        other => panic!("unexpected {:?}", other),
    }
    let e = select_field(&num(5), "year", "x").unwrap_err();
    assert_eq!(message(e), "Cannot select 'x' because data type is number and not an object");
}

#[test]
fn members_of_values_met_while_browsing() {
    assert_eq!(browse_value(&date(2017, 5, 3), "day").unwrap(), num(3));
    assert_eq!(browse_value(&datetime(2017, 5, 3, 9, 5, 7), "minute").unwrap(), num(5));
    match browse_value(&num(5), "year").unwrap_err().error {
        LinkingErrorEnum::OtherLinkingError(m) => assert_eq!(m, "Value '5' does not have 'year' item"),
        other => panic!("unexpected {:?}", other),
    }
    match browse_value(&date(2017, 5, 3), "hour").unwrap_err().error {
        LinkingErrorEnum::OtherLinkingError(m) => {
            assert_eq!(m, "Value '2017-05-03' does not have 'hour' item")
        }
        other => panic!("unexpected {:?}", other),
    }
}

#[test]
fn missing_values_by_type() {
    let missing = SpecialValueEnum::Missing;
    assert_eq!(
        missing_for_type(&ValueType::NumberType),
        ValueEnum::NumberValue(ExactNumber::SV(missing))
    );
    assert_eq!(missing_for_type(&ValueType::DateType), ValueEnum::DateValue(ValueOrSv::Sv(missing)));
    assert_eq!(
        missing_for_type(&ValueType::BooleanType),
        ValueEnum::StringValue(StringEnum::SV(missing))
    );
    assert_eq!(
        missing_for_type(&ValueType::ListType(Box::new(ValueType::UndefinedType))),
        ValueEnum::Array(ArrayValue::EmptyUntyped)
    );
    assert_eq!(
        missing_for_type(&ValueType::ListType(Box::new(ValueType::NumberType))),
        list_of(&[])
    );
}

#[test]
fn casting_into_nested_list_types() {
    let nested = ValueType::ListType(Box::new(ValueType::ListType(Box::new(ValueType::NumberType))));
    let inner = |vals: &[i64]| list_of(vals);
    assert_eq!(
        cast_value(num(5), &nested),
        ValueEnum::Array(ArrayValue::PrimitivesArray {
            values: vec![inner(&[5])],
            item_type: ValueType::ListType(Box::new(ValueType::NumberType)),
        })
    );
    assert_eq!(
        cast_value(list_of(&[1, 2]), &nested),
        ValueEnum::Array(ArrayValue::PrimitivesArray {
            values: vec![inner(&[1]), inner(&[2])],
            item_type: ValueType::ListType(Box::new(ValueType::NumberType)),
        })
    );
}

#[test]
fn fields_of_durations() {
    // 1 day, 2 hours, 3 minutes and 4 seconds, negative
    let d = seconds(-(86400 + 2 * 3600 + 3 * 60 + 4));
    assert_eq!(select_field(&d, "days", "d").unwrap(), num(-1));
    assert_eq!(select_field(&d, "hours", "d").unwrap(), num(-2));
    assert_eq!(select_field(&d, "minutes", "d").unwrap(), num(-3));
    assert_eq!(select_field(&d, "seconds", "d").unwrap(), num(-4));
    assert_eq!(select_field(&d, "totalSeconds", "d").unwrap(), num(-93784));
    let p = ValueEnum::DurationValue(ValueOrSv::Value(DurationValue::YearsMonths { months: 14 }));
    assert_eq!(select_field(&p, "years", "p").unwrap(), num(1));
    assert_eq!(select_field(&p, "months", "p").unwrap(), num(2));
    assert_eq!(select_field(&p, "totalMonths", "p").unwrap(), num(14));
    match select_field(&d, "weeks", "d").unwrap_err().error {
        RuntimeErrorEnum::RuntimeFieldNotFound(field, object) => {
            assert_eq!(field, "weeks");
            assert_eq!(object, "duration");
        }
        other => panic!("unexpected {:?}", other),
    }
}

#[test]
fn distinct_and_duplicate_items() {
    let list = list_of(&[1, 2, 1, 3, 2, 1]);
    assert_eq!(edge_rules::list_values::eval_distinct(list).unwrap(), list_of(&[1, 2, 3]));
    let list = list_of(&[1, 2, 1, 3, 2, 1]);
    assert_eq!(edge_rules::list_values::eval_duplicates(list).unwrap(), list_of(&[1, 2]));
    assert_eq!(
        edge_rules::list_values::eval_distinct(ValueEnum::Array(ArrayValue::EmptyUntyped)).unwrap(),
        ValueEnum::Array(ArrayValue::EmptyUntyped)
    );
    match edge_rules::list_values::eval_distinct(num(5)).unwrap_err().error {
        RuntimeErrorEnum::TypeNotSupported(t) => assert_eq!(t, ValueType::NumberType),
        other => panic!("unexpected {:?}", other),
    }
    let strings = ValueEnum::Array(ArrayValue::PrimitivesArray {
        values: vec![text("a"), text("b"), text("a")],
        item_type: ValueType::UndefinedType,
    });
    assert_eq!(
        edge_rules::list_values::eval_distinct(strings).unwrap(),
        ValueEnum::Array(ArrayValue::PrimitivesArray {
            values: vec![text("a"), text("b")],
            item_type: ValueType::StringType,
        })
    );
}
