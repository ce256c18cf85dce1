use edge_rules::duration::DurationValue;
use edge_rules::errors::{LinkingErrorEnum, RuntimeErrorEnum};
use edge_rules::fields::{
    browse_definition_member, link_field_selection, select_date_field, select_datetime_field, select_time_field,
    TemporalField,
};
use edge_rules::iso_parse::parse_duration_iso8601;
use edge_rules::operators::{ComparatorEnum, MathOperatorEnum};
use edge_rules::temporal::{
    checked_apply_duration_to_date, checked_apply_duration_to_datetime, compare_chronological,
    date_difference, day_of_week_name, last_day_of_date_month, month_of_year_name,
    parse_date_iso, parse_datetime_local, parse_time_local, time_difference, CalendarDate,
    CalendarDateTime, ClockTime,
};
use edge_rules::types::{SpecialValueEnum, ValueOrSv, ValueType};

fn d(text: &str) -> CalendarDate {
    parse_date_iso(text).unwrap()
}

fn t(text: &str) -> ClockTime {
    parse_time_local(text).unwrap()
}

fn dt(text: &str) -> CalendarDateTime {
    parse_datetime_local(text).unwrap()
}

#[test]
fn datetime_primitives_and_components_browsing() {
    let d1 = d("2017-05-03");
    assert_eq!(select_date_field(d1, "year").unwrap(), 2017);
}

#[test]
fn datetime_primitives_and_components() {
    assert_eq!(select_date_field(d("2017-05-03"), "year").unwrap(), 2017);
    assert_eq!(select_date_field(d("2017-05-03"), "month").unwrap(), 5);
    assert_eq!(select_date_field(d("2017-05-03"), "day").unwrap(), 3);

    assert_eq!(select_time_field(t("12:00:00"), "second").unwrap(), 0);
    assert_eq!(select_time_field(t("13:10:30"), "minute").unwrap(), 10);

    assert_eq!(
        select_datetime_field(dt("2016-12-09T15:37:00"), "month").unwrap(),
        TemporalField::Number(12)
    );
    assert_eq!(
        select_datetime_field(dt("2016-12-09T15:37:00"), "hour").unwrap(),
        TemporalField::Number(15)
    );
    assert_eq!(
        select_datetime_field(dt("2016-12-09T15:37:00"), "time").unwrap(),
        TemporalField::Time(ClockTime { hour: 15, minute: 37, second: 0 })
    );

    assert_eq!(select_date_field(d("2018-10-11"), "weekday").unwrap(), 4);

    let d1 = d("2017-05-03");
    assert_eq!(select_date_field(d1, "year").unwrap(), 2017);
}

#[test]
fn datetime_comparisons_and_arithmetic() {
    assert!(compare_chronological(&d("2017-05-03"), ComparatorEnum::Less, &d("2017-05-04")));

    assert_eq!(
        date_difference(d("2017-05-04"), d("2017-05-03")),
        DurationValue::dt(1, 0, 0, 0, false)
    );

    let one_day = parse_duration_iso8601("P1D").unwrap();
    assert_eq!(
        checked_apply_duration_to_date(d("2017-05-03"), &one_day, &MathOperatorEnum::Addition)
            .unwrap()
            .unwrap(),
        CalendarDate { year: 2017, month: 5, day: 4 }
    );

    let one_month = parse_duration_iso8601("P1M").unwrap();
    assert_eq!(
        checked_apply_duration_to_date(d("2018-01-31"), &one_month, &MathOperatorEnum::Addition)
            .unwrap()
            .unwrap(),
        CalendarDate { year: 2018, month: 2, day: 28 }
    );

    assert_eq!(
        time_difference(t("13:10:30"), t("12:00:00")),
        DurationValue::dt(0, 1, 10, 30, false)
    );

    let hours = parse_duration_iso8601("PT23H").unwrap();
    assert_eq!(
        checked_apply_duration_to_datetime(
            dt("2016-12-09T15:37:00"),
            &hours,
            &MathOperatorEnum::Addition
        )
        .unwrap()
        .unwrap(),
        CalendarDateTime {
            date: CalendarDate { year: 2016, month: 12, day: 10 },
            time: ClockTime { hour: 14, minute: 37, second: 0 },
        }
    );
}

#[test]
fn datetime_additional_functions() {
    assert_eq!(day_of_week_name(d("2025-09-02")), "Tuesday");
    assert_eq!(month_of_year_name(d("2025-09-02")), "September");
    assert_eq!(last_day_of_date_month(d("2025-02-10")), 28);
}

fn not_found(e: &edge_rules::errors::RuntimeError) -> (String, String) {
    match &e.error {
        RuntimeErrorEnum::RuntimeFieldNotFound(field, object) => (field.clone(), object.clone()),
        other => panic!("not a missing field: {:?}", other),
    }
}

fn link_message(e: &edge_rules::errors::LinkingError) -> String {
    match &e.error {
        LinkingErrorEnum::OtherLinkingError(m) => m.clone(),
        other => panic!("not a plain linking error: {:?}", other),
    }
}

#[test]
fn unknown_fields_are_reported() {
    let e = select_date_field(d("2017-05-03"), "hour").unwrap_err();
    assert_eq!(not_found(&e), ("hour".to_string(), "date".to_string()));
    let e = select_time_field(t("13:10:30"), "year").unwrap_err();
    assert_eq!(not_found(&e), ("year".to_string(), "time".to_string()));
    let e = select_datetime_field(dt("2016-12-09T15:37:00"), "days").unwrap_err();
    assert_eq!(not_found(&e), ("days".to_string(), "date and time".to_string()));
}

#[test]
fn datetime_fields_cover_date_and_time() {
    let v = dt("2016-12-09T15:37:05");
    assert_eq!(select_datetime_field(v, "year").unwrap(), TemporalField::Number(2016));
    assert_eq!(select_datetime_field(v, "day").unwrap(), TemporalField::Number(9));
    assert_eq!(select_datetime_field(v, "minute").unwrap(), TemporalField::Number(37));
    assert_eq!(select_datetime_field(v, "second").unwrap(), TemporalField::Number(5));
    assert_eq!(select_datetime_field(v, "weekday").unwrap(), TemporalField::Number(5));
    assert_eq!(select_time_field(t("13:10:30"), "hour").unwrap(), 13);
}

#[test]
fn field_types_are_linked() {
    assert_eq!(
        link_field_selection("d", &ValueType::DateType, "weekday").unwrap(),
        ValueType::NumberType
    );
    assert_eq!(
        link_field_selection("t", &ValueType::TimeType, "second").unwrap(),
        ValueType::NumberType
    );
    assert_eq!(
        link_field_selection("x", &ValueType::DateTimeType, "time").unwrap(),
        ValueType::TimeType
    );
    assert_eq!(
        link_field_selection("x", &ValueType::DateTimeType, "hour").unwrap(),
        ValueType::NumberType
    );
    assert_eq!(
        link_field_selection("p", &ValueType::DurationType, "totalHours").unwrap(),
        ValueType::NumberType
    );
    assert_eq!(
        link_message(&link_field_selection("d", &ValueType::DateType, "hour").unwrap_err()),
        "date does not have 'hour' item"
    );
    assert_eq!(
        link_message(&link_field_selection("t", &ValueType::TimeType, "day").unwrap_err()),
        "time does not have 'day' item"
    );
    assert_eq!(
        link_message(&link_field_selection("x", &ValueType::DateTimeType, "days").unwrap_err()),
        "datetime does not have 'days' item"
    );
    assert_eq!(
        link_message(&link_field_selection("p", &ValueType::DurationType, "years").unwrap_err()),
        "duration does not have 'years' item"
    );
    assert_eq!(
        link_message(
            &link_field_selection(
                "value",
                &ValueType::ListType(Box::new(ValueType::NumberType)),
                "x"
            )
            .unwrap_err()
        ),
        "Cannot select 'value' because data type is list of number and not an object"
    );
}

#[test]
fn browsing_type_definitions() {
    assert_eq!(
        browse_definition_member(&ValueType::DateType, "year").unwrap(),
        ValueType::NumberType
    );
    assert_eq!(
        browse_definition_member(&ValueType::DateTimeType, "time").unwrap(),
        ValueType::TimeType
    );
    assert_eq!(
        link_message(&browse_definition_member(&ValueType::DurationType, "days").unwrap_err()),
        "Cannot access 'days' from 'duration' definition"
    );
    assert_eq!(
        link_message(&browse_definition_member(&ValueType::DateTimeType, "days").unwrap_err()),
        "Cannot access 'days' from 'date and time' definition"
    );
}

#[test]
fn date_functions_refuse_missing_dates() {
    let day = ValueOrSv::Value(d("2025-09-02"));
    assert_eq!(edge_rules::temporal::eval_day_of_week(&day).unwrap(), "Tuesday");
    assert_eq!(edge_rules::temporal::eval_month_of_year(&day).unwrap(), "September");
    assert_eq!(
        edge_rules::temporal::eval_last_day_of_month(&ValueOrSv::Value(d("2024-02-10"))).unwrap(),
        29
    );
    let missing: ValueOrSv<CalendarDate, SpecialValueEnum> = ValueOrSv::Sv(SpecialValueEnum::Missing);
    for e in [
        edge_rules::temporal::eval_day_of_week(&missing).unwrap_err(),
        edge_rules::temporal::eval_month_of_year(&missing).unwrap_err(),
        edge_rules::temporal::eval_last_day_of_month(&missing).unwrap_err(),
    ] {
        assert_eq!(e.error, RuntimeErrorEnum::TypeNotSupported(ValueType::DateType));
    }
}
