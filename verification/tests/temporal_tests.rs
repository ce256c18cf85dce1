use edge_rules::duration::DurationValue;
use edge_rules::errors::RuntimeErrorEnum;
use edge_rules::operators::{ComparatorEnum, MathOperatorEnum};
use edge_rules::temporal::{
    apply_duration_to_time, checked_apply_duration_to_date, checked_apply_duration_to_datetime,
    compare_chronological, date_difference, date_minus_datetime, datetime_difference,
    datetime_minus_date, day_of_week_name, duration_from_time_diff, eval_date, eval_datetime,
    eval_duration, eval_max_dates, eval_max_datetimes, eval_max_times, eval_min_dates,
    eval_min_times, last_day_of_date_month, merge_date_with_datetime, month_name_from_num,
    month_of_year_name, shift_date_by_months, time_difference, weekday_name_from_num,
    CalendarDate, CalendarDateTime, ClockTime,
};
use edge_rules::types::{SpecialValueEnum, StringEnum, ValueOrSv, ValueType};

fn date(year: i32, month: u8, day: u8) -> CalendarDate {
    CalendarDate { year, month, day }
}

fn clock(hour: u8, minute: u8, second: u8) -> ClockTime {
    ClockTime { hour, minute, second }
}

fn at(d: CalendarDate, t: ClockTime) -> CalendarDateTime {
    CalendarDateTime { date: d, time: t }
}

fn eval_message(e: &edge_rules::errors::RuntimeError) -> String {
    match &e.error {
        RuntimeErrorEnum::EvalError(m) => m.clone(),
        other => panic!("not an evaluation error: {:?}", other),
    }
}

#[test]
fn weekday_and_month_names() {
    assert_eq!(weekday_name_from_num(1), "Monday");
    assert_eq!(weekday_name_from_num(7), "Sunday");
    assert_eq!(weekday_name_from_num(0), "");
    assert_eq!(month_name_from_num(9), "September");
    assert_eq!(month_name_from_num(13), "");
}

#[test]
fn day_of_week_month_of_year_and_last_day() {
    assert_eq!(day_of_week_name(date(2025, 9, 2)), "Tuesday");
    assert_eq!(day_of_week_name(date(2018, 10, 11)), "Thursday");
    assert_eq!(day_of_week_name(date(2000, 1, 1)), "Saturday");
    assert_eq!(month_of_year_name(date(2025, 9, 2)), "September");
    assert_eq!(last_day_of_date_month(date(2025, 2, 10)), 28);
    assert_eq!(last_day_of_date_month(date(2024, 2, 10)), 29);
}

#[test]
fn shifting_by_months_clamps_the_day() {
    assert_eq!(shift_date_by_months(date(2018, 1, 31), 1).unwrap(), date(2018, 2, 28));
    assert_eq!(shift_date_by_months(date(2018, 3, 15), -3).unwrap(), date(2017, 12, 15));
    assert_eq!(shift_date_by_months(date(2018, 3, 15), 0).unwrap(), date(2018, 3, 15));
    assert_eq!(shift_date_by_months(date(2018, 1, 15), -13).unwrap(), date(2016, 12, 15));
}

#[test]
fn shifting_by_months_errors() {
    let e = shift_date_by_months(date(9999, 12, 1), 1).unwrap_err();
    assert_eq!(eval_message(&e), "Invalid date produced by duration adjustment");
    let e = shift_date_by_months(date(2000, 1, 1), i32::MAX as i128 + 1).unwrap_err();
    assert_eq!(eval_message(&e), "Month offset is out of range for date adjustment");
}

#[test]
fn moving_a_date_by_a_duration() {
    let one_day = DurationValue::DaysTime { seconds: 86400 };
    let moved = checked_apply_duration_to_date(date(2017, 5, 3), &one_day, &MathOperatorEnum::Addition);
    assert_eq!(moved.unwrap().unwrap(), date(2017, 5, 4));
    let back = checked_apply_duration_to_date(date(2017, 5, 3), &one_day, &MathOperatorEnum::Subtraction);
    assert_eq!(back.unwrap().unwrap(), date(2017, 5, 2));
    let month = DurationValue::YearsMonths { months: 1 };
    let moved = checked_apply_duration_to_date(date(2018, 1, 31), &month, &MathOperatorEnum::Addition);
    assert_eq!(moved.unwrap().unwrap(), date(2018, 2, 28));
    let hours = DurationValue::DaysTime { seconds: 25 * 3600 };
    let moved = checked_apply_duration_to_date(date(2020, 2, 28), &hours, &MathOperatorEnum::Addition);
    assert_eq!(moved.unwrap().unwrap(), date(2020, 2, 29));
}

#[test]
fn moving_a_date_out_of_range_is_refused() {
    let one_day = DurationValue::DaysTime { seconds: 86400 };
    let moved = checked_apply_duration_to_date(date(9999, 12, 31), &one_day, &MathOperatorEnum::Addition);
    assert!(moved.is_none());
    let huge = DurationValue::DaysTime { seconds: i64::MAX as i128 + 1 };
    let moved = checked_apply_duration_to_date(date(2000, 1, 1), &huge, &MathOperatorEnum::Addition);
    let e = moved.unwrap().unwrap_err();
    assert_eq!(eval_message(&e), "Second offset is out of range for date adjustment");
}

#[test]
fn moving_a_datetime_by_a_duration() {
    let hours = DurationValue::DaysTime { seconds: 23 * 3600 };
    let start = at(date(2016, 12, 9), clock(15, 37, 0));
    let moved = checked_apply_duration_to_datetime(start, &hours, &MathOperatorEnum::Addition);
    assert_eq!(moved.unwrap().unwrap(), at(date(2016, 12, 10), clock(14, 37, 0)));
    let both = DurationValue::Combined { months: 1, seconds: 60 };
    let moved = checked_apply_duration_to_datetime(start, &both, &MathOperatorEnum::Subtraction);
    assert_eq!(moved.unwrap().unwrap(), at(date(2016, 11, 9), clock(15, 36, 0)));
    let late = at(date(9999, 12, 31), clock(23, 0, 0));
    assert!(checked_apply_duration_to_datetime(late, &hours, &MathOperatorEnum::Addition).is_none());
}

#[test]
fn moving_a_time_wraps_around_midnight() {
    let two_hours = DurationValue::DaysTime { seconds: 7200 };
    let t = apply_duration_to_time(clock(23, 0, 0), &two_hours, &MathOperatorEnum::Addition);
    assert_eq!(t.unwrap(), clock(1, 0, 0));
    let t = apply_duration_to_time(clock(1, 0, 0), &two_hours, &MathOperatorEnum::Subtraction);
    assert_eq!(t.unwrap(), clock(23, 0, 0));
    let t = apply_duration_to_time(clock(1, 0, 0), &two_hours, &MathOperatorEnum::Multiplication);
    assert_eq!(t.unwrap(), clock(3, 0, 0));
    let month = DurationValue::YearsMonths { months: 1 };
    let e = apply_duration_to_time(clock(1, 0, 0), &month, &MathOperatorEnum::Addition).unwrap_err();
    assert_eq!(eval_message(&e), "Cannot apply month-based duration to time values");
}

#[test]
fn differences_are_days_time_durations() {
    assert_eq!(
        date_difference(date(2017, 5, 4), date(2017, 5, 3)),
        DurationValue::DaysTime { seconds: 86400 }
    );
    assert_eq!(
        date_difference(date(2017, 5, 3), date(2017, 5, 4)),
        DurationValue::DaysTime { seconds: -86400 }
    );
    assert_eq!(
        date_difference(date(2021, 1, 1), date(2020, 1, 1)),
        DurationValue::DaysTime { seconds: 366 * 86400 }
    );
    assert_eq!(
        time_difference(clock(13, 10, 30), clock(12, 0, 0)),
        DurationValue::DaysTime { seconds: 4230 }
    );
    assert_eq!(
        time_difference(clock(12, 0, 0), clock(13, 10, 30)),
        DurationValue::DaysTime { seconds: -4230 }
    );
    assert_eq!(
        datetime_difference(at(date(2016, 12, 10), clock(1, 0, 0)), at(date(2016, 12, 9), clock(23, 0, 0))),
        DurationValue::DaysTime { seconds: 7200 }
    );
    assert_eq!(
        date_minus_datetime(date(2016, 12, 10), at(date(2016, 12, 9), clock(23, 0, 0))),
        DurationValue::DaysTime { seconds: 3600 }
    );
    assert_eq!(
        datetime_minus_date(at(date(2016, 12, 9), clock(23, 0, 0)), date(2016, 12, 10)),
        DurationValue::DaysTime { seconds: -3600 }
    );
    assert_eq!(duration_from_time_diff(-5), DurationValue::DaysTime { seconds: -5 });
}

#[test]
fn merging_a_date_with_a_datetime_keeps_the_time() {
    let merged = merge_date_with_datetime(date(2020, 1, 2), at(date(1999, 5, 5), clock(8, 30, 0)));
    assert_eq!(merged, at(date(2020, 1, 2), clock(8, 30, 0)));
}

#[test]
fn comparing_dates_times_and_datetimes() {
    assert!(compare_chronological(&date(2017, 5, 3), ComparatorEnum::Less, &date(2017, 5, 4)));
    assert!(!compare_chronological(&date(2017, 5, 3), ComparatorEnum::Greater, &date(2017, 5, 4)));
    assert!(compare_chronological(&date(2016, 12, 31), ComparatorEnum::Less, &date(2017, 1, 1)));
    assert!(compare_chronological(&clock(1, 2, 3), ComparatorEnum::Equals, &clock(1, 2, 3)));
    assert!(compare_chronological(&clock(1, 2, 3), ComparatorEnum::NotEquals, &clock(1, 2, 4)));
    let early = at(date(2016, 12, 9), clock(23, 59, 59));
    let late = at(date(2016, 12, 10), clock(0, 0, 0));
    assert!(compare_chronological(&early, ComparatorEnum::LessEquals, &late));
    assert!(compare_chronological(&late, ComparatorEnum::GreaterEquals, &early));
}

#[test]
fn latest_and_earliest_of_lists() {
    let dates = vec![
        ValueOrSv::Value(date(2017, 5, 3)),
        ValueOrSv::Value(date(2018, 1, 1)),
        ValueOrSv::Value(date(2016, 2, 29)),
    ];
    assert_eq!(eval_max_dates(&dates).unwrap(), ValueOrSv::Value(date(2018, 1, 1)));
    assert_eq!(eval_min_dates(&dates).unwrap(), ValueOrSv::Value(date(2016, 2, 29)));
    let empty: Vec<ValueOrSv<CalendarDate, SpecialValueEnum>> = Vec::new();
    assert_eq!(eval_max_dates(&empty).unwrap(), ValueOrSv::Sv(SpecialValueEnum::Missing));
    let with_missing = vec![ValueOrSv::Value(clock(1, 0, 0)), ValueOrSv::Sv(SpecialValueEnum::Missing)];
    let e = eval_max_times(&with_missing).unwrap_err();
    assert_eq!(e.error, RuntimeErrorEnum::TypeNotSupported(ValueType::TimeType));
    let times = vec![ValueOrSv::Value(clock(13, 0, 0)), ValueOrSv::Value(clock(9, 30, 0))];
    assert_eq!(eval_min_times(&times).unwrap(), ValueOrSv::Value(clock(9, 30, 0)));
    let moments = vec![
        ValueOrSv::Value(at(date(2020, 1, 1), clock(0, 0, 1))),
        ValueOrSv::Value(at(date(2019, 12, 31), clock(23, 59, 59))),
    ];
    assert_eq!(
        eval_max_datetimes(&moments).unwrap(),
        ValueOrSv::Value(at(date(2020, 1, 1), clock(0, 0, 1)))
    );
}

#[test]
fn converting_strings_to_temporal_values() {
    let d = eval_date(&StringEnum::String("2017-05-03".to_string())).unwrap();
    assert_eq!(d, date(2017, 5, 3));
    let e = eval_date(&StringEnum::String("2017-02-30".to_string())).unwrap_err();
    assert_eq!(eval_message(&e), "Invalid date string");
    let e = eval_date(&StringEnum::Char('x')).unwrap_err();
    assert_eq!(e.error, RuntimeErrorEnum::TypeNotSupported(ValueType::StringType));
    let e = eval_datetime(&StringEnum::String("2017-05-03".to_string())).unwrap_err();
    assert_eq!(eval_message(&e), "Invalid datetime string");
    let d = eval_duration(&StringEnum::String("P1D".to_string())).unwrap();
    assert_eq!(d, DurationValue::DaysTime { seconds: 86400 });
    let e = eval_duration(&StringEnum::String("1D".to_string())).unwrap_err();
    assert_eq!(eval_message(&e), "Invalid duration string");
}
