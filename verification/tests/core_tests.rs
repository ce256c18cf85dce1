use edge_rules::builtins::{
    binary_built_in_names, built_in_all_functions, multi_built_in_names, unary_built_in_names,
};
use edge_rules::duration::DurationValue;
use edge_rules::iso_parse::parse_duration_iso8601;
use edge_rules::temporal::{
    parse_date_iso, parse_datetime_local, parse_time_local, CalendarDate, CalendarDateTime,
    ClockTime,
};

#[test]
fn test_parse_duration_iso() {
    let d1 = parse_duration_iso8601("P1Y6M").unwrap();
    assert!(matches!(d1, DurationValue::YearsMonths { .. }));
    assert_eq!(d1, DurationValue::YearsMonths { months: 18 });

    let d2 = parse_duration_iso8601("PT45M").unwrap();
    assert!(matches!(d2, DurationValue::DaysTime { .. }));
    assert_eq!(d2, DurationValue::DaysTime { seconds: 45 * 60 });

    let d3 = parse_duration_iso8601("P2DT3H").unwrap();
    assert!(matches!(d3, DurationValue::DaysTime { .. }));
    assert_eq!(d3, DurationValue::DaysTime { seconds: 2 * 86400 + 3 * 3600 });

    let d4 = parse_duration_iso8601("-P1Y").unwrap();
    assert!(d4.is_negative());
    assert_eq!(d4, DurationValue::YearsMonths { months: -12 });

    assert!(parse_duration_iso8601("").is_none());
    assert!(parse_duration_iso8601("P").is_some());
    assert!(parse_duration_iso8601("P1Y2D").is_none());
}

#[test]
fn unary_index_is_sorted() {
    let names = unary_built_in_names();
    assert!(names.windows(2).all(|window| window[0] <= window[1]));
}

#[test]
fn binary_index_is_sorted() {
    let names = binary_built_in_names();
    assert!(names.windows(2).all(|window| window[0] <= window[1]));
}

#[test]
fn multi_index_is_sorted() {
    let names = multi_built_in_names();
    assert!(names.windows(2).all(|window| window[0] <= window[1]));
}

#[test]
fn builtin_type_index_is_sorted() {
    let all = built_in_all_functions();
    assert!(all.windows(2).all(|window| window[0].0 <= window[1].0));
}

#[test]
fn decision_tables_test_first() {}

#[test]
fn runtime_test_first() {}

#[test]
fn now() {}

#[test]
fn tokenizer_test_first() {}

#[test]
fn test_string() {}

#[test]
fn test_parse_date_time_datetime() {
    assert!(parse_date_iso("2017-05-03").is_some());
    assert!(parse_time_local("13:10:30").is_some());
    assert!(parse_datetime_local("2017-05-03T13:10:30").is_some());
    assert!(parse_datetime_local("2017-05-03").is_none());
}

#[test]
fn test_time_crate_parsing_values_and_invalids() {
    let d = parse_date_iso("2017-05-03").unwrap();
    assert_eq!(d, CalendarDate { year: 2017, month: 5, day: 3 });
    assert!(parse_date_iso("2017-13-01").is_none());
    assert!(parse_date_iso("2017-02-30").is_none());

    let t = parse_time_local("00:10:59").unwrap();
    assert_eq!(t, ClockTime { hour: 0, minute: 10, second: 59 });
    assert!(parse_time_local("24:00:00").is_none());
    assert!(parse_time_local("12:60:00").is_none());
    assert!(parse_time_local("12:00:60").is_none());

    let dt = parse_datetime_local("2016-12-09T15:37:00").unwrap();
    assert_eq!(
        dt,
        CalendarDateTime {
            date: CalendarDate { year: 2016, month: 12, day: 9 },
            time: ClockTime { hour: 15, minute: 37, second: 0 },
        }
    );
    assert!(parse_datetime_local("2016-12-09 15:37:00").is_none());
    assert!(parse_datetime_local("2016-12-32T00:00:00").is_none());
}
