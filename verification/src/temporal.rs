use vstd::prelude::*;

use crate::calendar::{last_day_of_month, spec_last_day_of_month};
use crate::errors::is_eval_error;
use crate::duration::{spec_months, spec_seconds, DurationValue};
use crate::errors::{RuntimeError, RuntimeErrorEnum};
use crate::operators::MathOperatorEnum;
use crate::iso_parse::{parse_duration_iso8601, spec_parse_duration};
use crate::operators::ComparatorEnum;
use crate::types::{SpecialValueEnum, StringEnum, ValueOrSv, ValueType};

verus! {

/// The earliest year a date can have.
pub const MIN_YEAR: i32 = -9999;

/// The latest year a date can have.
pub const MAX_YEAR: i32 = 9999;

/// The Julian day of the earliest date, -9999-01-01.
pub const MIN_JULIAN_DAY: i32 = -1930999;

/// The Julian day of the latest date, 9999-12-31.
pub const MAX_JULIAN_DAY: i32 = 5373484;

/// A day of the proleptic Gregorian calendar.
#[derive(Clone, Copy, Debug, PartialEq, Eq, Structural)]
pub struct CalendarDate {
    pub year: i32,
    pub month: u8,
    pub day: u8,
}

/// A time of day, to the second.
#[derive(Clone, Copy, Debug, PartialEq, Eq, Structural)]
pub struct ClockTime {
    pub hour: u8,
    pub minute: u8,
    pub second: u8,
}

/// A day together with a time of that day.
#[derive(Clone, Copy, Debug, PartialEq, Eq, Structural)]
pub struct CalendarDateTime {
    pub date: CalendarDate,
    pub time: ClockTime,
}

/// Whether `year`-`month`-`day` is a day that exists, in a year within ±9999.
pub open spec fn spec_valid_date_parts(year: int, month: int, day: int) -> bool {
    &&& MIN_YEAR <= year <= MAX_YEAR
    &&& 1 <= month <= 12
    &&& 1 <= day <= spec_last_day_of_month(year, month)
}

impl CalendarDate {
    /// The date exists and its year is within ±9999.
    pub open spec fn wf(self) -> bool {
        spec_valid_date_parts(self.year as int, self.month as int, self.day as int)
    }
}

impl ClockTime {
    /// Hours, minutes and seconds are within a day.
    pub open spec fn wf(self) -> bool {
        self.hour < 24 && self.minute < 60 && self.second < 60
    }

    /// Seconds since midnight.
    pub open spec fn seconds_of_day(self) -> int {
        self.hour * 3600 + self.minute * 60 + self.second
    }
}

impl CalendarDateTime {
    /// Both the day and the time of day are well formed.
    pub open spec fn wf(self) -> bool {
        self.date.wf() && self.time.wf()
    }
}

/// The days of `year` before the first of `month`.
pub open spec fn spec_days_before_month(year: int, month: int) -> int
    decreases month,
{
    if month <= 1 {
        0
    } else {
        spec_days_before_month(year, month - 1) + spec_last_day_of_month(year, month - 1)
    }
}

/// The Julian day of a date, as the `time` crate counts it (day 0 is -4713-11-24): the
/// days before the year, counted from a year far enough back to be positive, plus the day
/// of the year, less the days up to day 0.
#[verifier::opaque]
pub open spec fn julian_day_of(year: i32, month: u8, day: u8) -> i32 {
    let adj_year = year + 999_999;
    let century = adj_year / 100;
    let days_before_year = 1461 * adj_year / 4 - century + century / 4;
    let ordinal = spec_days_before_month(year as int, month as int) + day;
    (days_before_year + ordinal - 363_521_075) as i32
}

/// The day after a day that is not the last of its month is the next Julian day.
pub proof fn lemma_next_day_in_month(d: CalendarDate)
    requires
        d.wf(),
        (d.day as int) < spec_last_day_of_month(d.year as int, d.month as int),
    ensures
        spec_julian_day(CalendarDate { year: d.year, month: d.month, day: (d.day + 1) as u8 })
            == spec_julian_day(d) + 1,
{
    reveal(julian_day_of);
    let adj_year = d.year + 999_999;
    assert(0 <= adj_year);
    lemma_days_before_month_bounds(d.year as int, d.month as int);
}

/// The days of a year before a month of it lie within the year.
proof fn lemma_days_before_month_bounds(year: int, month: int)
    requires
        1 <= month <= 12,
    ensures
        0 <= spec_days_before_month(year, month) <= 31 * (month - 1),
    decreases month,
{
    if month > 1 {
        lemma_days_before_month_bounds(year, month - 1);
    }
}

/// The Julian day of `d`.
pub open spec fn spec_julian_day(d: CalendarDate) -> int {
    julian_day_of(d.year, d.month, d.day) as int
}

/// The moment of a date and time, in seconds counted from the start of Julian day 0.
pub open spec fn spec_instant(dt: CalendarDateTime) -> int {
    spec_julian_day(dt.date) * 86400 + dt.time.seconds_of_day()
}

/// The ISO number of the weekday of Julian day `julian_day`: 1 for Monday up to 7 for
/// Sunday (Julian day 0 was a Monday).
pub open spec fn spec_weekday_of_julian_day(julian_day: int) -> int {
    julian_day % 7 + 1
}

/// `time::Date::from_calendar_date`, reading back the date it builds: that date when the
/// `time` crate can represent it (a year within ±9999 and a day that exists in the month),
/// nothing otherwise.
#[verifier::external_body]
fn checked_calendar_date(year: i32, month: u8, day: u8) -> (res: Option<CalendarDate>)
    requires
        1 <= month <= 12,
    ensures
        res == (if spec_valid_date_parts(year as int, month as int, day as int) {
            Some(CalendarDate { year, month, day })
        } else {
            None::<CalendarDate>
        }),
{
    let month = time::Month::try_from(month).unwrap();
    match time::Date::from_calendar_date(year, month, day) {
        Ok(d) => Some(CalendarDate { year: d.year(), month: d.month() as u8, day: d.day() }),
        Err(_) => None,
    }
}

/// `time::Date::to_julian_day` of the date `d`.
#[verifier::external_body]
fn julian_day(d: CalendarDate) -> (res: i32)
    requires
        d.wf(),
    ensures
        res == julian_day_of(d.year, d.month, d.day),
{
    let month = time::Month::try_from(d.month).unwrap();
    time::Date::from_calendar_date(d.year, month, d.day).unwrap().to_julian_day()
}

/// `time::Date::weekday` followed by `Weekday::number_from_monday`: the `time` crate reads
/// the weekday off the Julian day of the date, Julian day 0 being a Monday.
#[verifier::external_body]
pub(crate) fn weekday_number(d: CalendarDate) -> (res: u8)
    requires
        d.wf(),
    ensures
        res as int == spec_weekday_of_julian_day(spec_julian_day(d)),
{
    let month = time::Month::try_from(d.month).unwrap();
    time::Date::from_calendar_date(d.year, month, d.day).unwrap().weekday().number_from_monday()
}

/// Name of the ISO weekday number `weekday` (1 is Monday), empty for other numbers.
pub open spec fn spec_weekday_name(weekday: int) -> Seq<char> {
    if weekday == 1 {
        "Monday"@
    } else if weekday == 2 {
        "Tuesday"@
    } else if weekday == 3 {
        "Wednesday"@
    } else if weekday == 4 {
        "Thursday"@
    } else if weekday == 5 {
        "Friday"@
    } else if weekday == 6 {
        "Saturday"@
    } else if weekday == 7 {
        "Sunday"@
    } else {
        ""@
    }
}

/// Name of month number `month` (1 is January), empty for other numbers.
pub open spec fn spec_month_name(month: int) -> Seq<char> {
    if month == 1 {
        "January"@
    } else if month == 2 {
        "February"@
    } else if month == 3 {
        "March"@
    } else if month == 4 {
        "April"@
    } else if month == 5 {
        "May"@
    } else if month == 6 {
        "June"@
    } else if month == 7 {
        "July"@
    } else if month == 8 {
        "August"@
    } else if month == 9 {
        "September"@
    } else if month == 10 {
        "October"@
    } else if month == 11 {
        "November"@
    } else if month == 12 {
        "December"@
    } else {
        ""@
    }
}

/// The name of the ISO weekday number `weekday`.
pub fn weekday_name_from_num(weekday: i32) -> (res: &'static str)
    ensures
        res@ == spec_weekday_name(weekday as int),
{
    match weekday {
        1 => "Monday",
        2 => "Tuesday",
        3 => "Wednesday",
        4 => "Thursday",
        5 => "Friday",
        6 => "Saturday",
        7 => "Sunday",
        _ => "",
    }
}

/// The name of month number `month`.
pub fn month_name_from_num(month: u8) -> (res: &'static str)
    ensures
        res@ == spec_month_name(month as int),
{
    match month {
        1 => "January",
        2 => "February",
        3 => "March",
        4 => "April",
        5 => "May",
        6 => "June",
        7 => "July",
        8 => "August",
        9 => "September",
        10 => "October",
        11 => "November",
        12 => "December",
        _ => "",
    }
}

/// The name of the weekday of `date`.
pub fn day_of_week_name(date: CalendarDate) -> (res: &'static str)
    requires
        date.wf(),
    ensures
        res@ == spec_weekday_name(spec_weekday_of_julian_day(spec_julian_day(date))),
{
    let iso = weekday_number(date);
    weekday_name_from_num(iso as i32)
}

/// The name of the month of `date`.
pub fn month_of_year_name(date: CalendarDate) -> (res: &'static str)
    ensures
        res@ == spec_month_name(date.month as int),
{
    month_name_from_num(date.month)
}

/// The last day of the month of `date`.
pub fn last_day_of_date_month(date: CalendarDate) -> (res: i64)
    ensures
        res as int == spec_last_day_of_month(date.year as int, date.month as int),
{
    last_day_of_month(date.year, date.month) as i64
}

/// `res` is the error for a missing date where a date was wanted.
pub open spec fn is_missing_date_error(res: RuntimeError) -> bool {
    &&& res.error == RuntimeErrorEnum::TypeNotSupported(ValueType::DateType)
    &&& res.context@.len() == 0
}

/// The `dayOfWeek` function: the name of the weekday of a date; a missing date is an error.
pub fn eval_day_of_week(value: &ValueOrSv<CalendarDate, SpecialValueEnum>) -> (res: Result<
    String,
    RuntimeError,
>)
    requires
        value matches ValueOrSv::Value(d) ==> d.wf(),
    ensures
        match *value {
            ValueOrSv::Value(d) => res is Ok && res->Ok_0@ == spec_weekday_name(
                spec_weekday_of_julian_day(spec_julian_day(d)),
            ),
            ValueOrSv::Sv(_) => res is Err && is_missing_date_error(res->Err_0),
        },
{
    match value {
        ValueOrSv::Value(d) => Ok(String::from_str(day_of_week_name(*d))),
        ValueOrSv::Sv(_) => Err(RuntimeError::type_not_supported(ValueType::DateType)),
    }
}

/// The `monthOfYear` function: the name of the month of a date; a missing date is an error.
pub fn eval_month_of_year(value: &ValueOrSv<CalendarDate, SpecialValueEnum>) -> (res: Result<
    String,
    RuntimeError,
>)
    ensures
        match *value {
            ValueOrSv::Value(d) => res is Ok && res->Ok_0@ == spec_month_name(d.month as int),
            ValueOrSv::Sv(_) => res is Err && is_missing_date_error(res->Err_0),
        },
{
    match value {
        ValueOrSv::Value(d) => Ok(String::from_str(month_of_year_name(*d))),
        ValueOrSv::Sv(_) => Err(RuntimeError::type_not_supported(ValueType::DateType)),
    }
}

/// The `lastDayOfMonth` function: the last day of the month of a date; a missing date is an
/// error.
pub fn eval_last_day_of_month(value: &ValueOrSv<CalendarDate, SpecialValueEnum>) -> (res: Result<
    i64,
    RuntimeError,
>)
    ensures
        match *value {
            ValueOrSv::Value(d) => res == Ok::<i64, RuntimeError>(
                spec_last_day_of_month(d.year as int, d.month as int) as i64,
            ),
            ValueOrSv::Sv(_) => res is Err && is_missing_date_error(res->Err_0),
        },
{
    match value {
        ValueOrSv::Value(d) => Ok(last_day_of_date_month(*d)),
        ValueOrSv::Sv(_) => Err(RuntimeError::type_not_supported(ValueType::DateType)),
    }
}

/// The date `months` months after `date` (before it for negative `months`), with the day
/// kept unless that month is shorter, in which case its last day; nothing when the year
/// leaves ±9999.
pub open spec fn spec_shift_months(date: CalendarDate, months: int) -> Option<CalendarDate> {
    let index = date.year * 12 + (date.month - 1) + months;
    let year = index / 12;
    let month = index % 12 + 1;
    let last = spec_last_day_of_month(year, month);
    let day = if date.day > last {
        last
    } else {
        date.day as int
    };
    if MIN_YEAR <= year <= MAX_YEAR {
        Some(CalendarDate { year: year as i32, month: month as u8, day: day as u8 })
    } else {
        None
    }
}

/// Whether a month offset can be added to the month number of `date` in 32 bits, as the
/// month arithmetic of `shift_date_by_months` needs.
pub open spec fn spec_month_offset_fits(date: CalendarDate, months: int) -> bool {
    months != 0 && i32::MIN <= months <= i32::MAX ==> date.month + months <= i32::MAX
}

/// `date` moved by `months_delta` months: unchanged for no months; an error when the offset
/// does not fit in 32 bits or the year leaves ±9999.
pub fn shift_date_by_months(date: CalendarDate, months_delta: i128) -> (res: Result<
    CalendarDate,
    RuntimeError,
>)
    requires
        date.wf(),
        spec_month_offset_fits(date, months_delta as int),
    ensures
        months_delta == 0 ==> res == Ok::<CalendarDate, RuntimeError>(date),
        months_delta != 0 && !(i32::MIN <= months_delta <= i32::MAX) ==> res is Err
            && is_eval_error(res->Err_0, "Month offset is out of range for date adjustment"@),
        months_delta != 0 && i32::MIN <= months_delta <= i32::MAX ==> match spec_shift_months(
            date,
            months_delta as int,
        ) {
            Some(d) => res == Ok::<CalendarDate, RuntimeError>(d),
            None => res is Err && is_eval_error(
                res->Err_0,
                "Invalid date produced by duration adjustment"@,
            ),
        },
        res matches Ok(d) ==> d.wf(),
{
    if months_delta == 0 {
        return Ok(date);
    }
    if months_delta < i32::MIN as i128 || months_delta > i32::MAX as i128 {
        return Err(
            RuntimeError::eval_error(
                String::from_str("Month offset is out of range for date adjustment"),
            ),
        );
    }
    let index: i64 = (date.year as i64) * 12 + (date.month as i64 - 1) + (months_delta as i64);
    let year: i64 = if index >= 0 {
        index / 12
    } else {
        -((-index + 11) / 12)
    };
    let month0: i64 = index - year * 12;
    proof {
        if index >= 0 {
            vstd::arithmetic::div_mod::lemma_fundamental_div_mod(index as int, 12);
            vstd::arithmetic::div_mod::lemma_fundamental_div_mod_converse(
                index as int,
                12,
                year as int,
                month0 as int,
            );
        } else {
            let k = (-index + 11) / 12;
            vstd::arithmetic::div_mod::lemma_fundamental_div_mod(-index + 11, 12);
            assert(0 <= month0 < 12);
            vstd::arithmetic::div_mod::lemma_fundamental_div_mod_converse(
                index as int,
                12,
                year as int,
                month0 as int,
            );
        }
    }
    if year < MIN_YEAR as i64 || year > MAX_YEAR as i64 {
        return Err(
            RuntimeError::eval_error(
                String::from_str("Invalid date produced by duration adjustment"),
            ),
        );
    }
    let new_month: u8 = (month0 + 1) as u8;
    let last = last_day_of_month(year as i32, new_month);
    let new_day = if date.day > last {
        last
    } else {
        date.day
    };
    match checked_calendar_date(year as i32, new_month, new_day) {
        Some(d) => Ok(d),
        None => Err(
            RuntimeError::eval_error(
                String::from_str("Invalid date produced by duration adjustment"),
            ),
        ),
    }
}

/// Whether moving the moment `dt` by `seconds` seconds stays within the dates the `time`
/// crate can represent.
pub open spec fn spec_seconds_fit(dt: CalendarDateTime, seconds: int) -> bool {
    MIN_JULIAN_DAY * 86400 <= spec_instant(dt) + seconds < (MAX_JULIAN_DAY + 1) * 86400
}

/// `time::PrimitiveDateTime + time::Duration::seconds(seconds)`, reading back the date and
/// time it gives: the moment `seconds` seconds after `dt`. The `time` crate panics when that
/// moment is outside the dates it can represent, which `requires` leaves out.
#[verifier::external_body]
fn add_seconds(dt: CalendarDateTime, seconds: i64) -> (res: CalendarDateTime)
    requires
        dt.wf(),
        spec_seconds_fit(dt, seconds as int),
    ensures
        res.wf(),
        spec_instant(res) == spec_instant(dt) + seconds,
{
    let month = time::Month::try_from(dt.date.month).unwrap();
    let date = time::Date::from_calendar_date(dt.date.year, month, dt.date.day).unwrap();
    let clock = time::Time::from_hms(dt.time.hour, dt.time.minute, dt.time.second).unwrap();
    let moved = time::PrimitiveDateTime::new(date, clock) + time::Duration::seconds(seconds);
    CalendarDateTime {
        date: CalendarDate { year: moved.year(), month: moved.month() as u8, day: moved.day() },
        time: ClockTime { hour: moved.hour(), minute: moved.minute(), second: moved.second() },
    }
}

/// `(a - b).whole_days()` on two `time::Date`s: the `time` crate subtracts their Julian days.
#[verifier::external_body]
fn days_between(a: CalendarDate, b: CalendarDate) -> (res: i64)
    requires
        a.wf(),
        b.wf(),
    ensures
        res == spec_julian_day(a) - spec_julian_day(b),
{
    let a_month = time::Month::try_from(a.month).unwrap();
    let b_month = time::Month::try_from(b.month).unwrap();
    let a_date = time::Date::from_calendar_date(a.year, a_month, a.day).unwrap();
    let b_date = time::Date::from_calendar_date(b.year, b_month, b.day).unwrap();
    (a_date - b_date).whole_days()
}

/// `(a - b).whole_seconds()` on two `time::PrimitiveDateTime`s: the difference of their days
/// plus the difference of their times of day.
#[verifier::external_body]
fn seconds_between(a: CalendarDateTime, b: CalendarDateTime) -> (res: i64)
    requires
        a.wf(),
        b.wf(),
    ensures
        res == spec_instant(a) - spec_instant(b),
{
    let a_month = time::Month::try_from(a.date.month).unwrap();
    let b_month = time::Month::try_from(b.date.month).unwrap();
    let a_date = time::Date::from_calendar_date(a.date.year, a_month, a.date.day).unwrap();
    let b_date = time::Date::from_calendar_date(b.date.year, b_month, b.date.day).unwrap();
    let a_clock = time::Time::from_hms(a.time.hour, a.time.minute, a.time.second).unwrap();
    let b_clock = time::Time::from_hms(b.time.hour, b.time.minute, b.time.second).unwrap();
    (time::PrimitiveDateTime::new(a_date, a_clock) - time::PrimitiveDateTime::new(b_date, b_clock))
        .whole_seconds()
}

/// Midnight at the start of `date`.
pub fn datetime_at_midnight(date: CalendarDate) -> (res: CalendarDateTime)
    ensures
        res == (CalendarDateTime { date, time: ClockTime { hour: 0, minute: 0, second: 0 } }),
{
    CalendarDateTime { date, time: ClockTime { hour: 0, minute: 0, second: 0 } }
}

/// The time of day `seconds` seconds after midnight, counted around the clock.
pub open spec fn spec_clock_time_of(seconds: int) -> ClockTime {
    let s = seconds % 86400;
    ClockTime { hour: (s / 3600) as u8, minute: ((s % 3600) / 60) as u8, second: (s % 60) as u8 }
}

/// The month part and the second part of `duration`, both negated for a subtraction.
pub open spec fn spec_signed_parts(duration: DurationValue, operator: MathOperatorEnum) -> (
    int,
    int,
) {
    if operator is Subtraction {
        (-spec_months(duration), -spec_seconds(duration))
    } else {
        (spec_months(duration), spec_seconds(duration))
    }
}

/// Whether the parts of `duration` can be negated in 128 bits, as a subtraction needs.
pub open spec fn spec_negatable(duration: DurationValue, operator: MathOperatorEnum) -> bool {
    operator is Subtraction ==> spec_months(duration) != i128::MIN && spec_seconds(duration)
        != i128::MIN
}

/// The month part and the second part of `duration`, negated for a subtraction.
fn signed_parts(duration: &DurationValue, operator: &MathOperatorEnum) -> (res: (i128, i128))
    requires
        spec_negatable(*duration, *operator),
    ensures
        (res.0 as int, res.1 as int) == spec_signed_parts(*duration, *operator),
{
    let (months, seconds) = duration.components();
    match operator {
        MathOperatorEnum::Subtraction => (-months, -seconds),
        _ => (months, seconds),
    }
}

/// `time` moved by the seconds of `duration` (back for a subtraction, forward for any other
/// operator), counted around the clock; an error for a duration with months.
pub fn apply_duration_to_time(
    time: ClockTime,
    duration: &DurationValue,
    operator: &MathOperatorEnum,
) -> (res: Result<ClockTime, RuntimeError>)
    requires
        time.wf(),
        spec_negatable(*duration, *operator),
        spec_seconds(*duration) + 86400 < i128::MAX,
        -spec_seconds(*duration) + 86400 < i128::MAX,
    ensures
        spec_months(*duration) != 0 ==> res is Err && is_eval_error(
            res->Err_0,
            "Cannot apply month-based duration to time values"@,
        ),
        spec_months(*duration) == 0 ==> res == Ok::<ClockTime, RuntimeError>(
            spec_clock_time_of(time.seconds_of_day() + spec_signed_parts(*duration, *operator).1),
        ),
        res matches Ok(t) ==> t.wf(),
{
    let (months_delta, _) = duration.components();
    if months_delta != 0 {
        return Err(
            RuntimeError::eval_error(
                String::from_str("Cannot apply month-based duration to time values"),
            ),
        );
    }
    let (_, seconds_delta) = signed_parts(duration, operator);
    let total: i128 = (time.hour as i128) * 3600 + (time.minute as i128) * 60
        + (time.second as i128) + seconds_delta;
    let secs_mod: i128 = if total >= 0 {
        total % 86400
    } else {
        let r = (-total) % 86400;
        if r == 0 {
            0
        } else {
            86400 - r
        }
    };
    proof {
        if total < 0 {
            let r = (-total) % 86400;
            let q = (-total) / 86400;
            vstd::arithmetic::div_mod::lemma_fundamental_div_mod(-total, 86400);
            if r == 0 {
                vstd::arithmetic::div_mod::lemma_fundamental_div_mod_converse(
                    total as int,
                    86400,
                    -q,
                    0,
                );
            } else {
                vstd::arithmetic::div_mod::lemma_fundamental_div_mod_converse(
                    total as int,
                    86400,
                    -q - 1,
                    86400 - r,
                );
            }
        }
        assert(secs_mod == total as int % 86400);
    }
    let hours: u8 = (secs_mod / 3600) as u8;
    let minutes: u8 = ((secs_mod % 3600) / 60) as u8;
    let seconds: u8 = (secs_mod % 60) as u8;
    Ok(ClockTime { hour: hours, minute: minutes, second: seconds })
}

/// The day found `seconds` seconds after midnight at the start of `date`.
pub open spec fn spec_day_after_seconds(date: CalendarDate, seconds: int) -> int {
    (spec_julian_day(date) * 86400 + seconds) / 86400
}

/// Whether `value` fits in 64 bits.
pub open spec fn spec_fits_i64(value: int) -> bool {
    i64::MIN <= value <= i64::MAX
}

/// Whether moving midnight of `date` by `seconds` seconds stays within the representable
/// dates, where the move is made at all (a non-zero offset that fits in 64 bits).
pub open spec fn spec_date_move_fits(date: CalendarDate, seconds: int) -> bool {
    seconds != 0 && spec_fits_i64(seconds) ==> spec_seconds_fit(
        CalendarDateTime { date, time: ClockTime { hour: 0, minute: 0, second: 0 } },
        seconds,
    )
}

proof fn lemma_day_of_moment(moved: CalendarDateTime, instant: int)
    requires
        moved.wf(),
        spec_instant(moved) == instant,
    ensures
        spec_julian_day(moved.date) == instant / 86400,
        moved.time.seconds_of_day() == instant % 86400,
{
    vstd::arithmetic::div_mod::lemma_fundamental_div_mod_converse(
        instant,
        86400,
        spec_julian_day(moved.date),
        moved.time.seconds_of_day(),
    );
}

/// The date reached from midnight of `date` after `seconds_delta` seconds: `date` itself
/// for no seconds, an error when the offset does not fit in 64 bits.
fn apply_seconds_to_date(date: CalendarDate, seconds_delta: i128) -> (res: Result<
    CalendarDate,
    RuntimeError,
>)
    requires
        date.wf(),
        spec_date_move_fits(date, seconds_delta as int),
    ensures
        seconds_delta == 0 ==> res == Ok::<CalendarDate, RuntimeError>(date),
        seconds_delta != 0 && !spec_fits_i64(seconds_delta as int) ==> res is Err
            && is_eval_error(res->Err_0, "Second offset is out of range for date adjustment"@),
        seconds_delta != 0 && spec_fits_i64(seconds_delta as int) ==> res is Ok
            && res->Ok_0.wf() && spec_julian_day(res->Ok_0) == spec_day_after_seconds(
            date,
            seconds_delta as int,
        ),
{
    if seconds_delta == 0 {
        return Ok(date);
    }
    if seconds_delta < i64::MIN as i128 || seconds_delta > i64::MAX as i128 {
        return Err(
            RuntimeError::eval_error(
                String::from_str("Second offset is out of range for date adjustment"),
            ),
        );
    }
    let moved = add_seconds(datetime_at_midnight(date), seconds_delta as i64);
    proof {
        lemma_day_of_moment(moved, spec_julian_day(date) * 86400 + seconds_delta);
    }
    Ok(moved.date)
}

/// What the month part of a move does to `date`: nothing for no months, an error when the
/// offset does not fit in 32 bits or the year leaves ±9999, the shifted date otherwise.
pub open spec fn spec_month_step(date: CalendarDate, months: int) -> Result<CalendarDate, Seq<char>> {
    if months == 0 {
        Ok(date)
    } else if !(i32::MIN <= months <= i32::MAX) {
        Err("Month offset is out of range for date adjustment"@)
    } else {
        match spec_shift_months(date, months) {
            Some(d) => Ok(d),
            None => Err("Invalid date produced by duration adjustment"@),
        }
    }
}

/// Whether `date` can be moved by `duration` with `operator` without leaving the
/// representable dates (where the `time` crate would panic).
pub open spec fn spec_date_duration_fits(
    date: CalendarDate,
    duration: DurationValue,
    operator: MathOperatorEnum,
) -> bool {
    let (months, seconds) = spec_signed_parts(duration, operator);
    spec_month_step(date, months) matches Ok(shifted) ==> spec_date_move_fits(shifted, seconds)
}

/// What moving `date` by `duration` with `operator` gives: the months first, then the
/// seconds, with the errors of each step.
pub open spec fn spec_date_moved(
    date: CalendarDate,
    duration: DurationValue,
    operator: MathOperatorEnum,
    res: Result<CalendarDate, RuntimeError>,
) -> bool {
    let (months, seconds) = spec_signed_parts(duration, operator);
    match spec_month_step(date, months) {
        Err(m) => res is Err && is_eval_error(res->Err_0, m),
        Ok(shifted) => if seconds == 0 {
            res == Ok::<CalendarDate, RuntimeError>(shifted)
        } else if !spec_fits_i64(seconds) {
            res is Err && is_eval_error(
                res->Err_0,
                "Second offset is out of range for date adjustment"@,
            )
        } else {
            res is Ok && res->Ok_0.wf() && spec_julian_day(res->Ok_0) == spec_day_after_seconds(
                shifted,
                seconds,
            )
        },
    }
}

/// `date` moved by `duration`: forward, or back for a subtraction; first by its months, then
/// by its seconds.
pub fn apply_duration_to_date(
    date: CalendarDate,
    duration: &DurationValue,
    operator: &MathOperatorEnum,
) -> (res: Result<CalendarDate, RuntimeError>)
    requires
        date.wf(),
        spec_negatable(*duration, *operator),
        spec_month_offset_fits(date, spec_signed_parts(*duration, *operator).0),
        spec_date_duration_fits(date, *duration, *operator),
    ensures
        spec_date_moved(date, *duration, *operator, res),
{
    let (months_delta, seconds_delta) = signed_parts(duration, operator);
    let shifted = shift_date_by_months(date, months_delta);
    match shifted {
        Err(e) => Err(e),
        Ok(current) => apply_seconds_to_date(current, seconds_delta),
    }
}

/// Whether the day part of `dt` moved by `seconds` stays within the representable dates,
/// computed as `spec_date_move_fits` states it.
fn seconds_fit(dt: CalendarDateTime, seconds: i128) -> (res: bool)
    requires
        dt.wf(),
    ensures
        res == spec_seconds_fit(dt, seconds as int),
{
    let day = julian_day(dt.date);
    let instant: i128 = (day as i128) * 86400 + (dt.time.hour as i128) * 3600 + (
    dt.time.minute as i128) * 60 + (dt.time.second as i128);
    if seconds > i128::MAX - 0x10_0000_0000_0000 || seconds < i128::MIN + 0x10_0000_0000_0000 {
        return false;
    }
    let target = instant + seconds;
    (MIN_JULIAN_DAY as i128) * 86400 <= target && target < ((MAX_JULIAN_DAY as i128) + 1) * 86400
}

/// `apply_duration_to_date`, or nothing where the move would leave the representable dates.
pub fn checked_apply_duration_to_date(
    date: CalendarDate,
    duration: &DurationValue,
    operator: &MathOperatorEnum,
) -> (res: Option<Result<CalendarDate, RuntimeError>>)
    requires
        date.wf(),
        spec_negatable(*duration, *operator),
        spec_month_offset_fits(date, spec_signed_parts(*duration, *operator).0),
    ensures
        res is None <==> !spec_date_duration_fits(date, *duration, *operator),
        res matches Some(r) ==> spec_date_moved(date, *duration, *operator, r),
{
    let (months_delta, seconds_delta) = signed_parts(duration, operator);
    match shift_date_by_months(date, months_delta) {
        Err(_) => {},
        Ok(shifted) => {
            if seconds_delta != 0 && i64::MIN as i128 <= seconds_delta && seconds_delta
                <= i64::MAX as i128 {
                if !seconds_fit(datetime_at_midnight(shifted), seconds_delta) {
                    return None;
                }
            }
        },
    }
    Some(apply_duration_to_date(date, duration, operator))
}

/// Whether `dt` can be moved by `duration` with `operator` without leaving the
/// representable dates (where the `time` crate would panic).
pub open spec fn spec_datetime_duration_fits(
    dt: CalendarDateTime,
    duration: DurationValue,
    operator: MathOperatorEnum,
) -> bool {
    let (months, seconds) = spec_signed_parts(duration, operator);
    spec_month_step(dt.date, months) matches Ok(shifted) ==> (seconds != 0 && spec_fits_i64(
        seconds,
    ) ==> spec_seconds_fit(CalendarDateTime { date: shifted, time: dt.time }, seconds))
}

/// What moving `dt` by `duration` with `operator` gives: the months move the day (keeping the
/// time of day), then the seconds move the moment; with the errors of each step.
pub open spec fn spec_datetime_moved(
    dt: CalendarDateTime,
    duration: DurationValue,
    operator: MathOperatorEnum,
    res: Result<CalendarDateTime, RuntimeError>,
) -> bool {
    let (months, seconds) = spec_signed_parts(duration, operator);
    match spec_month_step(dt.date, months) {
        Err(m) => res is Err && is_eval_error(res->Err_0, m),
        Ok(shifted) => {
            let start = CalendarDateTime { date: shifted, time: dt.time };
            if seconds == 0 {
                res == Ok::<CalendarDateTime, RuntimeError>(start)
            } else if !spec_fits_i64(seconds) {
                res is Err && is_eval_error(
                    res->Err_0,
                    "Second offset is out of range for datetime adjustment"@,
                )
            } else {
                res is Ok && res->Ok_0.wf() && spec_instant(res->Ok_0) == spec_instant(start)
                    + seconds
            }
        },
    }
}

/// `dt` moved by `duration`: forward, or back for a subtraction; first its day by the months,
/// then the moment by the seconds.
pub fn apply_duration_to_datetime(
    dt: CalendarDateTime,
    duration: &DurationValue,
    operator: &MathOperatorEnum,
) -> (res: Result<CalendarDateTime, RuntimeError>)
    requires
        dt.wf(),
        spec_negatable(*duration, *operator),
        spec_month_offset_fits(dt.date, spec_signed_parts(*duration, *operator).0),
        spec_datetime_duration_fits(dt, *duration, *operator),
    ensures
        spec_datetime_moved(dt, *duration, *operator, res),
{
    let (months_delta, seconds_delta) = signed_parts(duration, operator);
    let mut current = dt;
    if months_delta != 0 {
        match shift_date_by_months(current.date, months_delta) {
            Err(e) => {
                return Err(e);
            },
            Ok(adjusted) => {
                current = CalendarDateTime { date: adjusted, time: current.time };
            },
        }
    }
    if seconds_delta != 0 {
        if seconds_delta < i64::MIN as i128 || seconds_delta > i64::MAX as i128 {
            return Err(
                RuntimeError::eval_error(
                    String::from_str("Second offset is out of range for datetime adjustment"),
                ),
            );
        }
        current = add_seconds(current, seconds_delta as i64);
    }
    Ok(current)
}

/// `apply_duration_to_datetime`, or nothing where the move would leave the representable
/// dates.
pub fn checked_apply_duration_to_datetime(
    dt: CalendarDateTime,
    duration: &DurationValue,
    operator: &MathOperatorEnum,
) -> (res: Option<Result<CalendarDateTime, RuntimeError>>)
    requires
        dt.wf(),
        spec_negatable(*duration, *operator),
        spec_month_offset_fits(dt.date, spec_signed_parts(*duration, *operator).0),
    ensures
        res is None <==> !spec_datetime_duration_fits(dt, *duration, *operator),
        res matches Some(r) ==> spec_datetime_moved(dt, *duration, *operator, r),
{
    let (months_delta, seconds_delta) = signed_parts(duration, operator);
    match shift_date_by_months(dt.date, months_delta) {
        Err(_) => {},
        Ok(shifted) => {
            if seconds_delta != 0 && i64::MIN as i128 <= seconds_delta && seconds_delta
                <= i64::MAX as i128 {
                let start = CalendarDateTime { date: shifted, time: dt.time };
                if !seconds_fit(start, seconds_delta) {
                    return None;
                }
            }
        },
    }
    Some(apply_duration_to_datetime(dt, duration, operator))
}

/// A days-time duration of `seconds` seconds, as read off a `time` difference.
pub fn duration_from_time_diff(seconds: i64) -> (res: DurationValue)
    requires
        seconds != i64::MIN,
    ensures
        res == (DurationValue::DaysTime { seconds: seconds as i128 }),
{
    let negative = seconds < 0;
    let total: i128 = if negative {
        -(seconds as i128)
    } else {
        seconds as i128
    };
    DurationValue::dt_from_total_seconds(total, negative)
}

/// The days from `b` to `a`, as a days-time duration.
pub fn date_difference(a: CalendarDate, b: CalendarDate) -> (res: DurationValue)
    requires
        a.wf(),
        b.wf(),
    ensures
        res == (DurationValue::DaysTime {
            seconds: ((spec_julian_day(a) - spec_julian_day(b)) * 86400) as i128,
        }),
{
    let diff = days_between(a, b);
    let negative = diff < 0;
    let days: i64 = if negative {
        -diff
    } else {
        diff
    };
    DurationValue::dt(days, 0, 0, 0, negative)
}

/// The time from `b` to `a` within one day, as a days-time duration.
pub fn time_difference(a: ClockTime, b: ClockTime) -> (res: DurationValue)
    requires
        a.wf(),
        b.wf(),
    ensures
        res == (DurationValue::DaysTime {
            seconds: (a.seconds_of_day() - b.seconds_of_day()) as i128,
        }),
{
    let a_secs: i64 = (a.hour as i64) * 3600 + (a.minute as i64) * 60 + (a.second as i64);
    let b_secs: i64 = (b.hour as i64) * 3600 + (b.minute as i64) * 60 + (b.second as i64);
    let mut diff = a_secs - b_secs;
    let negative = diff < 0;
    if negative {
        diff = -diff;
    }
    let hours = diff / 3600;
    let minutes = (diff % 3600) / 60;
    let seconds = diff % 60;
    proof {
        assert(diff == hours * 3600 + minutes * 60 + seconds) by (nonlinear_arith)
            requires
                diff >= 0,
                hours == diff / 3600,
                minutes == (diff % 3600) / 60,
                seconds == diff % 60,
        {
            vstd::arithmetic::div_mod::lemma_fundamental_div_mod(diff as int, 3600);
            vstd::arithmetic::div_mod::lemma_fundamental_div_mod(diff as int % 3600, 60);
            vstd::arithmetic::div_mod::lemma_mod_mod(diff as int, 3600, 60);
        }
    }
    DurationValue::dt(0, hours, minutes, seconds, negative)
}

/// The time from `b` to `a`, as a days-time duration.
pub fn datetime_difference(a: CalendarDateTime, b: CalendarDateTime) -> (res: DurationValue)
    requires
        a.wf(),
        b.wf(),
    ensures
        res == (DurationValue::DaysTime { seconds: (spec_instant(a) - spec_instant(b)) as i128 }),
{
    duration_from_time_diff(seconds_between(a, b))
}

/// A date added to a date and time: that date at the time of day of `dt`.
pub fn merge_date_with_datetime(date: CalendarDate, dt: CalendarDateTime) -> (res:
    CalendarDateTime)
    ensures
        res == (CalendarDateTime { date, time: dt.time }),
{
    CalendarDateTime { date, time: dt.time }
}

/// The time from `dt` to midnight at the start of `date`, as a days-time duration.
pub fn date_minus_datetime(date: CalendarDate, dt: CalendarDateTime) -> (res: DurationValue)
    requires
        date.wf(),
        dt.wf(),
    ensures
        res == (DurationValue::DaysTime {
            seconds: (spec_julian_day(date) * 86400 - spec_instant(dt)) as i128,
        }),
{
    duration_from_time_diff(seconds_between(datetime_at_midnight(date), dt))
}

/// The time from midnight at the start of `date` to `dt`, as a days-time duration.
pub fn datetime_minus_date(dt: CalendarDateTime, date: CalendarDate) -> (res: DurationValue)
    requires
        date.wf(),
        dt.wf(),
    ensures
        res == (DurationValue::DaysTime {
            seconds: (spec_instant(dt) - spec_julian_day(date) * 86400) as i128,
        }),
{
    duration_from_time_diff(seconds_between(dt, datetime_at_midnight(date)))
}

/// A value that lies on the time line: its order key grows with time.
pub trait Chronological: Copy + Sized {
    /// The position of the value on the time line.
    spec fn spec_order_key(self) -> int;

    /// The type a list of such values has.
    spec fn spec_value_type() -> ValueType;

    /// The position of the value on the time line.
    fn order_key(&self) -> (res: i64)
        ensures
            res == self.spec_order_key(),
    ;

    /// The type a list of such values has.
    fn value_type() -> (res: ValueType)
        ensures
            res == Self::spec_value_type(),
    ;
}

impl Chronological for CalendarDate {
    /// Year, then month, then day.
    open spec fn spec_order_key(self) -> int {
        (self.year * 13 + self.month) * 32 + self.day
    }

    open spec fn spec_value_type() -> ValueType {
        ValueType::DateType
    }

    fn order_key(&self) -> (res: i64) {
        ((self.year as i64) * 13 + (self.month as i64)) * 32 + (self.day as i64)
    }

    fn value_type() -> (res: ValueType) {
        ValueType::DateType
    }
}

impl Chronological for ClockTime {
    /// Seconds since midnight.
    open spec fn spec_order_key(self) -> int {
        self.seconds_of_day()
    }

    open spec fn spec_value_type() -> ValueType {
        ValueType::TimeType
    }

    fn order_key(&self) -> (res: i64) {
        (self.hour as i64) * 3600 + (self.minute as i64) * 60 + (self.second as i64)
    }

    fn value_type() -> (res: ValueType) {
        ValueType::TimeType
    }
}

impl Chronological for CalendarDateTime {
    /// The day first, then the time of day.
    open spec fn spec_order_key(self) -> int {
        self.date.spec_order_key() * 0x10_0000 + self.time.spec_order_key()
    }

    open spec fn spec_value_type() -> ValueType {
        ValueType::DateTimeType
    }

    fn order_key(&self) -> (res: i64) {
        self.date.order_key() * 0x10_0000 + self.time.order_key()
    }

    fn value_type() -> (res: ValueType) {
        ValueType::DateTimeType
    }
}

/// The latest (`want_max`) or earliest value among the first `n` of `values`, the first
/// one among equals; `None` inside when there are none; `None` outside when a special value
/// comes first.
pub open spec fn spec_chrono_fold<T: Chronological>(
    values: Seq<ValueOrSv<T, SpecialValueEnum>>,
    n: int,
    want_max: bool,
) -> Option<Option<T>>
    decreases n,
{
    if n <= 0 {
        Some(None)
    } else {
        match spec_chrono_fold(values, n - 1, want_max) {
            None => None,
            Some(best) => match values[n - 1] {
                ValueOrSv::Sv(_) => None,
                ValueOrSv::Value(v) => match best {
                    None => Some(Some(v)),
                    Some(b) => if (want_max && b.spec_order_key() < v.spec_order_key()) || (
                    !want_max && v.spec_order_key() < b.spec_order_key()) {
                        Some(Some(v))
                    } else {
                        Some(Some(b))
                    },
                },
            },
        }
    }
}

/// The latest or earliest value of a list as the `max` and `min` functions give it: the
/// missing value for an empty list, nothing for a list holding a special value.
pub open spec fn spec_chrono_extreme<T: Chronological>(
    values: Seq<ValueOrSv<T, SpecialValueEnum>>,
    want_max: bool,
) -> Option<ValueOrSv<T, SpecialValueEnum>> {
    match spec_chrono_fold(values, values.len() as int, want_max) {
        None => None,
        Some(None) => Some(ValueOrSv::Sv(SpecialValueEnum::Missing)),
        Some(Some(v)) => Some(ValueOrSv::Value(v)),
    }
}

pub proof fn lemma_chrono_fold_none_stays<T: Chronological>(
    values: Seq<ValueOrSv<T, SpecialValueEnum>>,
    i: int,
    n: int,
    want_max: bool,
)
    requires
        0 <= i <= n,
        spec_chrono_fold(values, i, want_max) is None,
    ensures
        spec_chrono_fold(values, n, want_max) is None,
    decreases n - i,
{
    if i < n {
        lemma_chrono_fold_none_stays(values, i, n - 1, want_max);
    }
}

/// The latest or earliest value of `values`; the missing value for an empty list; an error
/// naming the type of the list when it holds a special value.
fn chrono_extreme<T: Chronological>(values: &Vec<ValueOrSv<T, SpecialValueEnum>>, want_max: bool) -> (res: Result<
    ValueOrSv<T, SpecialValueEnum>,
    RuntimeError,
>)
    ensures
        match spec_chrono_extreme(values@, want_max) {
            Some(v) => res == Ok::<ValueOrSv<T, SpecialValueEnum>, RuntimeError>(v),
            None => res is Err && res->Err_0.error == RuntimeErrorEnum::TypeNotSupported(
                T::spec_value_type(),
            ) && res->Err_0.context@.len() == 0,
        },
{
    let mut best: Option<T> = None;
    let mut i: usize = 0;
    while i < values.len()
        invariant
            i <= values@.len(),
            spec_chrono_fold(values@, i as int, want_max) == Some(best),
        decreases values@.len() - i,
    {
        match &values[i] {
            ValueOrSv::Sv(_) => {
                proof {
                    lemma_chrono_fold_none_stays(values@, i + 1, values@.len() as int, want_max);
                }
                return Err(RuntimeError::type_not_supported(T::value_type()));
            },
            ValueOrSv::Value(v) => {
                match best {
                    None => {
                        best = Some(*v);
                    },
                    Some(b) => {
                        let bk = b.order_key();
                        let vk = v.order_key();
                        if (want_max && bk < vk) || (!want_max && vk < bk) {
                            best = Some(*v);
                        }
                    },
                }
            },
        }
        i = i + 1;
    }
    match best {
        Some(v) => Ok(ValueOrSv::Value(v)),
        None => Ok(ValueOrSv::Sv(SpecialValueEnum::Missing)),
    }
}

/// The latest date of a list; the missing value for an empty list; an error for a list
/// holding a special value.
pub fn eval_max_dates(values: &Vec<ValueOrSv<CalendarDate, SpecialValueEnum>>) -> (res: Result<
    ValueOrSv<CalendarDate, SpecialValueEnum>,
    RuntimeError,
>)
    ensures
        match spec_chrono_extreme(values@, true) {
            Some(v) => res == Ok::<ValueOrSv<CalendarDate, SpecialValueEnum>, RuntimeError>(v),
            None => res is Err && res->Err_0.error == RuntimeErrorEnum::TypeNotSupported(
                ValueType::DateType,
            ) && res->Err_0.context@.len() == 0,
        },
{
    chrono_extreme(values, true)
}

/// The earliest date of a list; the missing value for an empty list; an error for a list
/// holding a special value.
pub fn eval_min_dates(values: &Vec<ValueOrSv<CalendarDate, SpecialValueEnum>>) -> (res: Result<
    ValueOrSv<CalendarDate, SpecialValueEnum>,
    RuntimeError,
>)
    ensures
        match spec_chrono_extreme(values@, false) {
            Some(v) => res == Ok::<ValueOrSv<CalendarDate, SpecialValueEnum>, RuntimeError>(v),
            None => res is Err && res->Err_0.error == RuntimeErrorEnum::TypeNotSupported(
                ValueType::DateType,
            ) && res->Err_0.context@.len() == 0,
        },
{
    chrono_extreme(values, false)
}

/// The latest time of a list; the missing value for an empty list; an error for a list
/// holding a special value.
pub fn eval_max_times(values: &Vec<ValueOrSv<ClockTime, SpecialValueEnum>>) -> (res: Result<
    ValueOrSv<ClockTime, SpecialValueEnum>,
    RuntimeError,
>)
    ensures
        match spec_chrono_extreme(values@, true) {
            Some(v) => res == Ok::<ValueOrSv<ClockTime, SpecialValueEnum>, RuntimeError>(v),
            None => res is Err && res->Err_0.error == RuntimeErrorEnum::TypeNotSupported(
                ValueType::TimeType,
            ) && res->Err_0.context@.len() == 0,
        },
{
    chrono_extreme(values, true)
}

/// The earliest time of a list; the missing value for an empty list; an error for a list
/// holding a special value.
pub fn eval_min_times(values: &Vec<ValueOrSv<ClockTime, SpecialValueEnum>>) -> (res: Result<
    ValueOrSv<ClockTime, SpecialValueEnum>,
    RuntimeError,
>)
    ensures
        match spec_chrono_extreme(values@, false) {
            Some(v) => res == Ok::<ValueOrSv<ClockTime, SpecialValueEnum>, RuntimeError>(v),
            None => res is Err && res->Err_0.error == RuntimeErrorEnum::TypeNotSupported(
                ValueType::TimeType,
            ) && res->Err_0.context@.len() == 0,
        },
{
    chrono_extreme(values, false)
}

/// The latest date and time of a list; the missing value for an empty list; an error for a
/// list holding a special value.
pub fn eval_max_datetimes(values: &Vec<ValueOrSv<CalendarDateTime, SpecialValueEnum>>) -> (res:
    Result<ValueOrSv<CalendarDateTime, SpecialValueEnum>, RuntimeError>)
    ensures
        match spec_chrono_extreme(values@, true) {
            Some(v) => res == Ok::<ValueOrSv<CalendarDateTime, SpecialValueEnum>, RuntimeError>(v),
            None => res is Err && res->Err_0.error == RuntimeErrorEnum::TypeNotSupported(
                ValueType::DateTimeType,
            ) && res->Err_0.context@.len() == 0,
        },
{
    chrono_extreme(values, true)
}

/// The earliest date and time of a list; the missing value for an empty list; an error for
/// a list holding a special value.
pub fn eval_min_datetimes(values: &Vec<ValueOrSv<CalendarDateTime, SpecialValueEnum>>) -> (res:
    Result<ValueOrSv<CalendarDateTime, SpecialValueEnum>, RuntimeError>)
    ensures
        match spec_chrono_extreme(values@, false) {
            Some(v) => res == Ok::<ValueOrSv<CalendarDateTime, SpecialValueEnum>, RuntimeError>(v),
            None => res is Err && res->Err_0.error == RuntimeErrorEnum::TypeNotSupported(
                ValueType::DateTimeType,
            ) && res->Err_0.context@.len() == 0,
        },
{
    chrono_extreme(values, false)
}

/// What `time::Date::parse` reads from `text` with the format description `format`
/// (version 1 syntax): year, month and day. It stands for two calls of the `time` crate:
/// `format_description::parse` of `format`, then the parse of `text` with what that gave; the
/// format being a given text, the outcome depends on the two texts alone.
pub uninterp spec fn time_date_parse(text: Seq<char>, format: Seq<char>) -> Option<(i32, u8, u8)>;

/// What `time::Time::parse` reads from `text` with the format description `format`
/// (version 1 syntax): hour, minute and second. It stands for `format_description::parse`
/// of `format` followed by the parse of `text`, and depends on the two texts alone.
pub uninterp spec fn time_time_parse(text: Seq<char>, format: Seq<char>) -> Option<(u8, u8, u8)>;

/// What `time::PrimitiveDateTime::parse` reads from `text` with the format description
/// `format` (version 1 syntax): year, month, day, hour, minute and second. It stands for
/// `format_description::parse` of `format` followed by the parse of `text`, and depends on
/// the two texts alone.
pub uninterp spec fn time_datetime_parse(text: Seq<char>, format: Seq<char>) -> Option<
    (i32, u8, u8, u8, u8, u8),
>;

/// The date made of parsed parts.
pub open spec fn spec_date_of(parts: Option<(i32, u8, u8)>) -> Option<CalendarDate> {
    match parts {
        Some((year, month, day)) => Some(CalendarDate { year, month, day }),
        None => None,
    }
}

/// The time of day made of parsed parts.
pub open spec fn spec_time_of(parts: Option<(u8, u8, u8)>) -> Option<ClockTime> {
    match parts {
        Some((hour, minute, second)) => Some(ClockTime { hour, minute, second }),
        None => None,
    }
}

/// The date and time made of parsed parts.
pub open spec fn spec_datetime_of(parts: Option<(i32, u8, u8, u8, u8, u8)>) -> Option<
    CalendarDateTime,
> {
    match parts {
        Some((year, month, day, hour, minute, second)) => Some(
            CalendarDateTime {
                date: CalendarDate { year, month, day },
                time: ClockTime { hour, minute, second },
            },
        ),
        None => None,
    }
}

/// `time::format_description::parse_borrowed::<1>` of `format`, then `time::Date::parse` of
/// `text` with it, read back as year, month and day; nothing when either step fails. A
/// `time::Date` always holds an existing day within ±9999.
#[verifier::external_body]
fn parse_date_with(text: &str, format: &str) -> (res: Option<CalendarDate>)
    ensures
        res == spec_date_of(time_date_parse(text@, format@)),
        res matches Some(d) ==> d.wf(),
{
    let Ok(description) = time::format_description::parse_borrowed::<1>(format) else {
        return None;
    };
    match time::Date::parse(text, &description) {
        Ok(d) => Some(CalendarDate { year: d.year(), month: d.month() as u8, day: d.day() }),
        Err(_) => None,
    }
}

/// `time::format_description::parse_borrowed::<1>` of `format`, then `time::Time::parse` of
/// `text` with it, read back as hour, minute and second; nothing when either step fails. A
/// `time::Time` always holds a time within the day.
#[verifier::external_body]
fn parse_time_with(text: &str, format: &str) -> (res: Option<ClockTime>)
    ensures
        res == spec_time_of(time_time_parse(text@, format@)),
        res matches Some(t) ==> t.wf(),
{
    let Ok(description) = time::format_description::parse_borrowed::<1>(format) else {
        return None;
    };
    match time::Time::parse(text, &description) {
        Ok(t) => Some(ClockTime { hour: t.hour(), minute: t.minute(), second: t.second() }),
        Err(_) => None,
    }
}

/// `time::format_description::parse_borrowed::<1>` of `format`, then
/// `time::PrimitiveDateTime::parse` of `text` with it, read back as its parts; nothing when
/// either step fails. Its date and time are always well formed.
#[verifier::external_body]
fn parse_datetime_with(text: &str, format: &str) -> (res: Option<CalendarDateTime>)
    ensures
        res == spec_datetime_of(time_datetime_parse(text@, format@)),
        res matches Some(dt) ==> dt.wf(),
{
    let Ok(description) = time::format_description::parse_borrowed::<1>(format) else {
        return None;
    };
    match time::PrimitiveDateTime::parse(text, &description) {
        Ok(v) => Some(CalendarDateTime {
            date: CalendarDate { year: v.year(), month: v.month() as u8, day: v.day() },
            time: ClockTime { hour: v.hour(), minute: v.minute(), second: v.second() },
        }),
        Err(_) => None,
    }
}

/// The format of a date: `YYYY-MM-DD`.
pub open spec fn date_format() -> Seq<char> {
    "[year]-[month]-[day]"@
}

/// The format of a time of day: `HH:MM:SS`.
pub open spec fn time_format() -> Seq<char> {
    "[hour]:[minute]:[second]"@
}

/// The format of a date and time: `YYYY-MM-DDTHH:MM:SS`.
pub open spec fn datetime_format() -> Seq<char> {
    "[year]-[month]-[day]T[hour]:[minute]:[second]"@
}

/// The date written `s` as `YYYY-MM-DD`.
pub fn parse_date_iso(s: &str) -> (res: Option<CalendarDate>)
    ensures
        res == spec_date_of(time_date_parse(s@, date_format())),
        res matches Some(d) ==> d.wf(),
{
    parse_date_with(s, "[year]-[month]-[day]")
}

/// The time of day written `s` as `HH:MM:SS`.
pub fn parse_time_local(s: &str) -> (res: Option<ClockTime>)
    ensures
        res == spec_time_of(time_time_parse(s@, time_format())),
        res matches Some(t) ==> t.wf(),
{
    parse_time_with(s, "[hour]:[minute]:[second]")
}

/// The date and time written `s` as `YYYY-MM-DDTHH:MM:SS`.
pub fn parse_datetime_local(s: &str) -> (res: Option<CalendarDateTime>)
    ensures
        res == spec_datetime_of(time_datetime_parse(s@, datetime_format())),
        res matches Some(dt) ==> dt.wf(),
{
    parse_datetime_with(s, "[year]-[month]-[day]T[hour]:[minute]:[second]")
}

/// What a conversion of a string value gives: for a string, the parsed value or an error
/// with `message` when it does not parse; for any other string value, an error that the
/// string type is not supported.
pub open spec fn spec_converted<T>(
    value: StringEnum,
    parsed: Option<T>,
    message: Seq<char>,
    res: Result<T, RuntimeError>,
) -> bool {
    match value {
        StringEnum::String(_) => match parsed {
            Some(v) => res == Ok::<T, RuntimeError>(v),
            None => res is Err && is_eval_error(res->Err_0, message),
        },
        _ => res is Err && res->Err_0.error == RuntimeErrorEnum::TypeNotSupported(
            ValueType::StringType,
        ) && res->Err_0.context@.len() == 0,
    }
}

/// The `date` function: the date written by a string value.
pub fn eval_date(value: &StringEnum) -> (res: Result<CalendarDate, RuntimeError>)
    ensures
        spec_converted(
            *value,
            match *value {
                StringEnum::String(raw) => spec_date_of(time_date_parse(raw@, date_format())),
                _ => None,
            },
            "Invalid date string"@,
            res,
        ),
        res matches Ok(d) ==> d.wf(),
{
    match value {
        StringEnum::String(raw) => match parse_date_iso(raw.as_str()) {
            Some(d) => Ok(d),
            None => Err(RuntimeError::eval_error(String::from_str("Invalid date string"))),
        },
        _ => Err(RuntimeError::type_not_supported(ValueType::StringType)),
    }
}

/// The `time` function: the time of day written by a string value.
pub fn eval_time(value: &StringEnum) -> (res: Result<ClockTime, RuntimeError>)
    ensures
        spec_converted(
            *value,
            match *value {
                StringEnum::String(raw) => spec_time_of(time_time_parse(raw@, time_format())),
                _ => None,
            },
            "Invalid time string"@,
            res,
        ),
        res matches Ok(t) ==> t.wf(),
{
    match value {
        StringEnum::String(raw) => match parse_time_local(raw.as_str()) {
            Some(t) => Ok(t),
            None => Err(RuntimeError::eval_error(String::from_str("Invalid time string"))),
        },
        _ => Err(RuntimeError::type_not_supported(ValueType::StringType)),
    }
}

/// The `datetime` function: the date and time written by a string value.
pub fn eval_datetime(value: &StringEnum) -> (res: Result<CalendarDateTime, RuntimeError>)
    ensures
        spec_converted(
            *value,
            match *value {
                StringEnum::String(raw) => spec_datetime_of(
                    time_datetime_parse(raw@, datetime_format()),
                ),
                _ => None,
            },
            "Invalid datetime string"@,
            res,
        ),
        res matches Ok(dt) ==> dt.wf(),
{
    match value {
        StringEnum::String(raw) => match parse_datetime_local(raw.as_str()) {
            Some(dt) => Ok(dt),
            None => Err(RuntimeError::eval_error(String::from_str("Invalid datetime string"))),
        },
        _ => Err(RuntimeError::type_not_supported(ValueType::StringType)),
    }
}

/// The `duration` function: the duration written by a string value in ISO 8601 form.
pub fn eval_duration(value: &StringEnum) -> (res: Result<DurationValue, RuntimeError>)
    ensures
        spec_converted(
            *value,
            match *value {
                StringEnum::String(raw) => spec_parse_duration(raw@),
                _ => None,
            },
            "Invalid duration string"@,
            res,
        ),
{
    match value {
        StringEnum::String(raw) => match parse_duration_iso8601(raw.as_str()) {
            Some(d) => Ok(d),
            None => Err(RuntimeError::eval_error(String::from_str("Invalid duration string"))),
        },
        _ => Err(RuntimeError::type_not_supported(ValueType::StringType)),
    }
}

/// How `comparator` judges two values by their place on the time line.
pub open spec fn spec_chrono_compare<T: Chronological>(left: T, comparator: ComparatorEnum, right: T) -> bool {
    let a = left.spec_order_key();
    let b = right.spec_order_key();
    match comparator {
        ComparatorEnum::Equals => a == b,
        ComparatorEnum::NotEquals => a != b,
        ComparatorEnum::Less => a < b,
        ComparatorEnum::Greater => a > b,
        ComparatorEnum::LessEquals => a <= b,
        ComparatorEnum::GreaterEquals => a >= b,
    }
}

/// Two dates, two times or two dates and times compared with `comparator`.
pub fn compare_chronological<T: Chronological>(left: &T, comparator: ComparatorEnum, right: &T) -> (res: bool)
    ensures
        res == spec_chrono_compare(*left, comparator, *right),
{
    let a = left.order_key();
    let b = right.order_key();
    match comparator {
        ComparatorEnum::Equals => a == b,
        ComparatorEnum::NotEquals => a != b,
        ComparatorEnum::Less => a < b,
        ComparatorEnum::Greater => a > b,
        ComparatorEnum::LessEquals => a <= b,
        ComparatorEnum::GreaterEquals => a >= b,
    }
}

} // verus!
