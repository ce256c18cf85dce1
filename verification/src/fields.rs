use vstd::prelude::*;

use crate::errors::{LinkingError, RuntimeError};
use crate::link_rules::is_other_link_error;
use crate::temporal::{
    spec_julian_day, spec_weekday_of_julian_day, weekday_number, CalendarDate, CalendarDateTime,
    ClockTime,
};
use crate::text::{chars_equal_str, chars_of, push_chars, push_str_chars, string_from_chars};
use crate::types::{push_type_string, spec_type_string, ValueType};

verus! {

/// What selecting a field of a date and time gives: a number, or its time of day.
#[derive(Clone, Copy, Debug, PartialEq, Eq, Structural)]
pub enum TemporalField {
    Number(i64),
    Time(ClockTime),
}

/// The ISO number of the weekday of `date`, 1 for Monday up to 7 for Sunday.
pub open spec fn spec_weekday(date: CalendarDate) -> int {
    spec_weekday_of_julian_day(spec_julian_day(date))
}

/// Field `name` of a date: `year`, `month`, `day` or `weekday`.
pub open spec fn spec_date_field(date: CalendarDate, name: Seq<char>) -> Option<int> {
    if name == "year"@ {
        Some(date.year as int)
    } else if name == "month"@ {
        Some(date.month as int)
    } else if name == "day"@ {
        Some(date.day as int)
    } else if name == "weekday"@ {
        Some(spec_weekday(date))
    } else {
        None
    }
}

/// Field `name` of a time of day: `hour`, `minute` or `second`.
pub open spec fn spec_time_field(time: ClockTime, name: Seq<char>) -> Option<int> {
    if name == "hour"@ {
        Some(time.hour as int)
    } else if name == "minute"@ {
        Some(time.minute as int)
    } else if name == "second"@ {
        Some(time.second as int)
    } else {
        None
    }
}

/// Field `name` of a date and time: a field of its date or of its time as a number, or
/// `time`, its time of day.
pub open spec fn spec_datetime_field(dt: CalendarDateTime, name: Seq<char>) -> Option<
    TemporalField,
> {
    if name == "time"@ {
        Some(TemporalField::Time(dt.time))
    } else {
        match spec_date_field(dt.date, name) {
            Some(n) => Some(TemporalField::Number(n as i64)),
            None => match spec_time_field(dt.time, name) {
                Some(n) => Some(TemporalField::Number(n as i64)),
                None => None,
            },
        }
    }
}

/// `e` is the evaluation error that `field` was not found in `object`, with no context.
pub open spec fn is_field_not_found(e: RuntimeError, field: Seq<char>, object: Seq<char>) -> bool {
    &&& e.context@.len() == 0
    &&& e.error is RuntimeFieldNotFound
    &&& e.error->RuntimeFieldNotFound_0@ == field
    &&& e.error->RuntimeFieldNotFound_1@ == object
}

/// Selects field `name` of a date; any other name is an error naming the field and `date`.
pub fn select_date_field(date: CalendarDate, name: &str) -> (res: Result<i64, RuntimeError>)
    requires
        date.wf(),
    ensures
        match spec_date_field(date, name@) {
            Some(v) => res == Ok::<i64, RuntimeError>(v as i64),
            None => res is Err && is_field_not_found(res->Err_0, name@, "date"@),
        },
{
    let chars = chars_of(name);
    if chars_equal_str(chars.as_slice(), "year") {
        Ok(date.year as i64)
    } else if chars_equal_str(chars.as_slice(), "month") {
        Ok(date.month as i64)
    } else if chars_equal_str(chars.as_slice(), "day") {
        Ok(date.day as i64)
    } else if chars_equal_str(chars.as_slice(), "weekday") {
        Ok(weekday_number(date) as i64)
    } else {
        proof {
            reveal_strlit("date");
        }
        Err(RuntimeError::field_not_found(name, "date"))
    }
}

/// Selects field `name` of a time of day; any other name is an error naming the field and
/// `time`.
pub fn select_time_field(time: ClockTime, name: &str) -> (res: Result<i64, RuntimeError>)
    ensures
        match spec_time_field(time, name@) {
            Some(v) => res == Ok::<i64, RuntimeError>(v as i64),
            None => res is Err && is_field_not_found(res->Err_0, name@, "time"@),
        },
{
    let chars = chars_of(name);
    if chars_equal_str(chars.as_slice(), "hour") {
        Ok(time.hour as i64)
    } else if chars_equal_str(chars.as_slice(), "minute") {
        Ok(time.minute as i64)
    } else if chars_equal_str(chars.as_slice(), "second") {
        Ok(time.second as i64)
    } else {
        Err(RuntimeError::field_not_found(name, "time"))
    }
}

/// Selects field `name` of a date and time; any other name is an error naming the field
/// and `date and time`.
pub fn select_datetime_field(dt: CalendarDateTime, name: &str) -> (res: Result<
    TemporalField,
    RuntimeError,
>)
    requires
        dt.wf(),
    ensures
        match spec_datetime_field(dt, name@) {
            Some(v) => res == Ok::<TemporalField, RuntimeError>(v),
            None => res is Err && is_field_not_found(res->Err_0, name@, "date and time"@),
        },
{
    let chars = chars_of(name);
    if chars_equal_str(chars.as_slice(), "time") {
        return Ok(TemporalField::Time(dt.time));
    }
    proof {
        reveal_strlit("time");
        reveal_strlit("year");
        reveal_strlit("month");
        reveal_strlit("day");
        reveal_strlit("weekday");
        reveal_strlit("hour");
        reveal_strlit("minute");
        reveal_strlit("second");
    }
    match select_date_field(dt.date, name) {
        Ok(n) => Ok(TemporalField::Number(n)),
        Err(_) => match select_time_field(dt.time, name) {
            Ok(n) => Ok(TemporalField::Number(n)),
            Err(_) => Err(RuntimeError::field_not_found(name, "date and time")),
        },
    }
}

/// The type of field `name` of a value of type `source`, for the field selections that the
/// language offers on dates, times, dates and times, and durations.
pub open spec fn spec_selected_field_type(source: ValueType, name: Seq<char>) -> Option<
    ValueType,
> {
    match source {
        ValueType::DateType => if name == "year"@ || name == "month"@ || name == "day"@ || name
            == "weekday"@ {
            Some(ValueType::NumberType)
        } else {
            None
        },
        ValueType::TimeType => if name == "hour"@ || name == "minute"@ || name == "second"@ {
            Some(ValueType::NumberType)
        } else {
            None
        },
        ValueType::DateTimeType => if name == "year"@ || name == "month"@ || name == "day"@
            || name == "hour"@ || name == "minute"@ || name == "second"@ || name == "weekday"@ {
            Some(ValueType::NumberType)
        } else if name == "time"@ {
            Some(ValueType::TimeType)
        } else {
            None
        },
        ValueType::DurationType => if name == "days"@ || name == "hours"@ || name == "minutes"@
            || name == "seconds"@ || name == "totalSeconds"@ || name == "totalMinutes"@ || name
            == "totalHours"@ {
            Some(ValueType::NumberType)
        } else {
            None
        },
        _ => None,
    }
}

/// How a source of type `source` is named where one of its fields is missing.
pub open spec fn spec_field_owner_name(source: ValueType) -> Seq<char> {
    match source {
        ValueType::DateType => "date"@,
        ValueType::TimeType => "time"@,
        ValueType::DateTimeType => "datetime"@,
        _ => "duration"@,
    }
}

/// Whether values of type `source` have fields to select.
pub open spec fn spec_has_fields(source: ValueType) -> bool {
    source is DateType || source is TimeType || source is DateTimeType || source is DurationType
}

/// The message for a field `name` that a source of type `source` does not have.
pub open spec fn spec_missing_field_message(source: ValueType, name: Seq<char>) -> Seq<char> {
    spec_field_owner_name(source) + " does not have '"@ + name + "' item"@
}

/// The message for a selection from `source_text`, whose values of type `source` have no
/// fields.
pub open spec fn spec_not_an_object_message(source_text: Seq<char>, source: ValueType) -> Seq<
    char,
> {
    "Cannot select '"@ + source_text + "' because data type is "@ + spec_type_string(source)
        + " and not an object"@
}

/// Whether `name` is one of `names`.
fn name_among(name: &Vec<char>, names: &[&str]) -> (res: bool)
    ensures
        res == (exists|i: int| 0 <= i < names@.len() && name@ == names@[i]@),
{
    let mut i: usize = 0;
    while i < names.len()
        invariant
            i <= names@.len(),
            forall|j: int| 0 <= j < i ==> name@ != #[trigger] names@[j]@,
        decreases names@.len() - i,
    {
        if chars_equal_str(name.as_slice(), names[i]) {
            return true;
        }
        i = i + 1;
    }
    false
}

/// The type that selecting field `name` from `source_text`, whose type is `source`, gives:
/// a number for the parts of dates, times, dates and times and durations, the time of day
/// for `time` of a date and time. A field that the type does not have, or a type without
/// fields, is a linking error saying so.
pub fn link_field_selection(source_text: &str, source: &ValueType, name: &str) -> (res: Result<
    ValueType,
    LinkingError,
>)
    ensures
        match spec_selected_field_type(*source, name@) {
            Some(t) => res == Ok::<ValueType, LinkingError>(t),
            None => res is Err && is_other_link_error(
                res->Err_0,
                if spec_has_fields(*source) {
                    spec_missing_field_message(*source, name@)
                } else {
                    spec_not_an_object_message(source_text@, *source)
                },
            ),
        },
{
    proof {
        reveal_strlit("year");
        reveal_strlit("month");
        reveal_strlit("day");
        reveal_strlit("weekday");
        reveal_strlit("hour");
        reveal_strlit("minute");
        reveal_strlit("second");
        reveal_strlit("time");
        reveal_strlit("days");
        reveal_strlit("hours");
        reveal_strlit("minutes");
        reveal_strlit("seconds");
        reveal_strlit("totalSeconds");
        reveal_strlit("totalMinutes");
        reveal_strlit("totalHours");
    }
    let chars = chars_of(name);
    let (found, owner): (Option<ValueType>, &str) = match source {
        ValueType::DateType => {
            let names: [&str; 4] = ["year", "month", "day", "weekday"];
            let hit = name_among(&chars, &names);
            assert(hit == (name@ == "year"@ || name@ == "month"@ || name@ == "day"@ || name@
                == "weekday"@)) by {
                if name@ == "year"@ {
                    assert(names@[0]@ == "year"@);
                }
                if name@ == "month"@ {
                    assert(names@[1]@ == "month"@);
                }
                if name@ == "day"@ {
                    assert(names@[2]@ == "day"@);
                }
                if name@ == "weekday"@ {
                    assert(names@[3]@ == "weekday"@);
                }
            }
            (
                if hit {
                    Some(ValueType::NumberType)
                } else {
                    None
                },
                "date",
            )
        },
        ValueType::TimeType => {
            let names: [&str; 3] = ["hour", "minute", "second"];
            let hit = name_among(&chars, &names);
            assert(hit == (name@ == "hour"@ || name@ == "minute"@ || name@ == "second"@)) by {
                if name@ == "hour"@ {
                    assert(names@[0]@ == "hour"@);
                }
                if name@ == "minute"@ {
                    assert(names@[1]@ == "minute"@);
                }
                if name@ == "second"@ {
                    assert(names@[2]@ == "second"@);
                }
            }
            (
                if hit {
                    Some(ValueType::NumberType)
                } else {
                    None
                },
                "time",
            )
        },
        ValueType::DateTimeType => {
            let names: [&str; 7] = ["year", "month", "day", "hour", "minute", "second", "weekday"];
            let hit = name_among(&chars, &names);
            assert(hit == (name@ == "year"@ || name@ == "month"@ || name@ == "day"@ || name@
                == "hour"@ || name@ == "minute"@ || name@ == "second"@ || name@ == "weekday"@))
                by {
                if name@ == "year"@ {
                    assert(names@[0]@ == "year"@);
                }
                if name@ == "month"@ {
                    assert(names@[1]@ == "month"@);
                }
                if name@ == "day"@ {
                    assert(names@[2]@ == "day"@);
                }
                if name@ == "hour"@ {
                    assert(names@[3]@ == "hour"@);
                }
                if name@ == "minute"@ {
                    assert(names@[4]@ == "minute"@);
                }
                if name@ == "second"@ {
                    assert(names@[5]@ == "second"@);
                }
                if name@ == "weekday"@ {
                    assert(names@[6]@ == "weekday"@);
                }
            }
            (
                if hit {
                    Some(ValueType::NumberType)
                } else if chars_equal_str(chars.as_slice(), "time") {
                    Some(ValueType::TimeType)
                } else {
                    None
                },
                "datetime",
            )
        },
        ValueType::DurationType => {
            let names: [&str; 7] = [
                "days",
                "hours",
                "minutes",
                "seconds",
                "totalSeconds",
                "totalMinutes",
                "totalHours",
            ];
            let hit = name_among(&chars, &names);
            assert(hit == (name@ == "days"@ || name@ == "hours"@ || name@ == "minutes"@ || name@
                == "seconds"@ || name@ == "totalSeconds"@ || name@ == "totalMinutes"@ || name@
                == "totalHours"@)) by {
                if name@ == "days"@ {
                    assert(names@[0]@ == "days"@);
                }
                if name@ == "hours"@ {
                    assert(names@[1]@ == "hours"@);
                }
                if name@ == "minutes"@ {
                    assert(names@[2]@ == "minutes"@);
                }
                if name@ == "seconds"@ {
                    assert(names@[3]@ == "seconds"@);
                }
                if name@ == "totalSeconds"@ {
                    assert(names@[4]@ == "totalSeconds"@);
                }
                if name@ == "totalMinutes"@ {
                    assert(names@[5]@ == "totalMinutes"@);
                }
                if name@ == "totalHours"@ {
                    assert(names@[6]@ == "totalHours"@);
                }
            }
            (
                if hit {
                    Some(ValueType::NumberType)
                } else {
                    None
                },
                "duration",
            )
        },
        _ => {
            let mut out: Vec<char> = Vec::new();
            push_str_chars(&mut out, "Cannot select '");
            push_str_chars(&mut out, source_text);
            push_str_chars(&mut out, "' because data type is ");
            push_type_string(&mut out, source);
            push_str_chars(&mut out, " and not an object");
            assert(out@ =~= spec_not_an_object_message(source_text@, *source));
            return Err(LinkingError::other_error(string_from_chars(out.as_slice())));
        },
    };
    match found {
        Some(t) => Ok(t),
        None => {
            proof {
                reveal_strlit("date");
                reveal_strlit("datetime");
                reveal_strlit("duration");
            }
            let mut out: Vec<char> = Vec::new();
            push_str_chars(&mut out, owner);
            push_str_chars(&mut out, " does not have '");
            push_chars(&mut out, chars.as_slice());
            push_str_chars(&mut out, "' item");
            assert(out@ =~= spec_missing_field_message(*source, name@));
            Err(LinkingError::other_error(string_from_chars(out.as_slice())))
        },
    }
}

/// The member type that browsing a path finds under field `name` of a type definition:
/// the parts of dates, times, and dates and times; durations offer none there.
pub open spec fn spec_browsed_member_type(definition: ValueType, name: Seq<char>) -> Option<
    ValueType,
> {
    if definition is DurationType {
        None
    } else {
        spec_selected_field_type(definition, name)
    }
}

/// The message for a field `name` that browsing cannot find in a definition of type
/// `definition`.
pub open spec fn spec_cannot_access_message(definition: ValueType, name: Seq<char>) -> Seq<char> {
    "Cannot access '"@ + name + "' from '"@ + spec_type_string(definition) + "' definition"@
}

/// Browses one step of a path into a type definition: the type of field `name`, or a
/// linking error saying that it cannot be accessed.
pub fn browse_definition_member(definition: &ValueType, name: &str) -> (res: Result<
    ValueType,
    LinkingError,
>)
    ensures
        match spec_browsed_member_type(*definition, name@) {
            Some(t) => res == Ok::<ValueType, LinkingError>(t),
            None => res is Err && is_other_link_error(
                res->Err_0,
                spec_cannot_access_message(*definition, name@),
            ),
        },
{
    let found = match definition {
        ValueType::DurationType => None,
        _ => match link_field_selection("", definition, name) {
            Ok(t) => Some(t),
            Err(_) => None,
        },
    };
    match found {
        Some(t) => Ok(t),
        None => {
            let mut out: Vec<char> = Vec::new();
            push_str_chars(&mut out, "Cannot access '");
            push_str_chars(&mut out, name);
            push_str_chars(&mut out, "' from '");
            push_type_string(&mut out, definition);
            push_str_chars(&mut out, "' definition");
            assert(out@ =~= spec_cannot_access_message(*definition, name@));
            Err(LinkingError::other_error(string_from_chars(out.as_slice())))
        },
    }
}

} // verus!
