use vstd::prelude::*;

use crate::errors::{RuntimeError, RuntimeErrorEnum};

verus! {

pub const MONTHS_PER_YEAR: i128 = 12;

pub const SECONDS_PER_MINUTE: i128 = 60;

pub const MINUTES_PER_HOUR: i128 = 60;

pub const HOURS_PER_DAY: i128 = 24;

pub const SECONDS_PER_HOUR: i128 = 3600;

pub const SECONDS_PER_DAY: i128 = 86400;

/// Twenty-eight days in seconds: the shortest month a year-month duration may stand for.
pub const SECONDS_PER_FEBRUARY_NON_LEAP: i128 = 2419200;

/// A duration: either a number of months (years and months), a number of seconds
/// (days and time), or both at once.
#[derive(Clone, Copy, Debug, PartialEq, Eq, Structural)]
pub enum DurationValue {
    YearsMonths { months: i128 },
    DaysTime { seconds: i128 },
    Combined { months: i128, seconds: i128 },
}

/// `value` with its sign forced negative when `negative` holds, kept as is otherwise.
pub open spec fn signed_total(value: int, negative: bool) -> int {
    if negative {
        if value < 0 {
            value
        } else {
            -value
        }
    } else {
        value
    }
}

/// The years-months duration `ym` builds.
pub open spec fn spec_ym(years: int, months: int, negative: bool) -> DurationValue {
    DurationValue::YearsMonths {
        months: signed_total(spec_total_months(years, months), negative) as i128,
    }
}

/// The days-time duration `dt` builds.
pub open spec fn spec_dt(days: int, hours: int, minutes: int, seconds: int, negative: bool) -> DurationValue {
    DurationValue::DaysTime {
        seconds: signed_total(spec_total_seconds(days, hours, minutes, seconds), negative) as i128,
    }
}

/// Total number of months in `years` years and `months` months.
pub open spec fn spec_total_months(years: int, months: int) -> int {
    years * 12 + months
}

/// Total number of seconds in the given days, hours, minutes and seconds.
pub open spec fn spec_total_seconds(days: int, hours: int, minutes: int, seconds: int) -> int {
    ((days * 24 + hours) * 60 + minutes) * 60 + seconds
}

/// The month part of a duration (zero for a days-time duration).
pub open spec fn spec_months(d: DurationValue) -> int {
    match d {
        DurationValue::YearsMonths { months } => months as int,
        DurationValue::DaysTime { .. } => 0,
        DurationValue::Combined { months, .. } => months as int,
    }
}

/// The second part of a duration (zero for a years-months duration).
pub open spec fn spec_seconds(d: DurationValue) -> int {
    match d {
        DurationValue::YearsMonths { .. } => 0,
        DurationValue::DaysTime { seconds } => seconds as int,
        DurationValue::Combined { seconds, .. } => seconds as int,
    }
}

/// Whether a duration has no months and no seconds.
pub open spec fn spec_is_zero(d: DurationValue) -> bool {
    spec_months(d) == 0 && spec_seconds(d) == 0
}

/// Whether a duration reads as negative: its months decide, unless there are none.
pub open spec fn spec_is_negative(d: DurationValue) -> bool {
    match d {
        DurationValue::YearsMonths { months } => months < 0,
        DurationValue::DaysTime { seconds } => seconds < 0,
        DurationValue::Combined { months, seconds } => if months != 0 {
            months < 0
        } else {
            seconds < 0
        },
    }
}

/// The duration built from a month total and a second total, as `combined` and
/// `from_components` build it: the zero duration is a days-time one.
pub open spec fn spec_from_totals(months: int, seconds: int) -> DurationValue {
    if months == 0 {
        DurationValue::DaysTime { seconds: seconds as i128 }
    } else if seconds == 0 {
        DurationValue::YearsMonths { months: months as i128 }
    } else {
        DurationValue::Combined { months: months as i128, seconds: seconds as i128 }
    }
}

/// Whether a month total and a second total have opposite signs (neither being zero).
pub open spec fn spec_mixed_signs(months: int, seconds: int) -> bool {
    (months > 0 && seconds < 0) || (months < 0 && seconds > 0)
}

/// The error text of `from_components` when the signs of the totals disagree.
pub open spec fn mixed_signs_message() -> Seq<char> {
    "Cannot represent duration with mixed month and day/time signs"@
}

proof fn lemma_total_seconds_bounds(days: i64, hours: i64, minutes: i64, seconds: i64)
    ensures
        -0x1_0000_0000_0000_0000_0000_0000_0000 < spec_total_seconds(
            days as int,
            hours as int,
            minutes as int,
            seconds as int,
        ) < 0x1_0000_0000_0000_0000_0000_0000_0000,
        -0x1_0000_0000_0000_0000_0000_0000 < (days * 24 + hours) < 0x1_0000_0000_0000_0000_0000_0000,
        -0x1_0000_0000_0000_0000_0000_0000_00 < (days * 24 + hours) * 60 + minutes
            < 0x1_0000_0000_0000_0000_0000_0000_00,
{
    assert(-0x8000_0000_0000_0000 <= days < 0x8000_0000_0000_0000);
    assert(-0x1_0000_0000_0000_0000_0000_0000 < (days * 24 + hours) < 0x1_0000_0000_0000_0000_0000_0000)
        by (nonlinear_arith)
        requires
            -0x8000_0000_0000_0000 <= days < 0x8000_0000_0000_0000,
            -0x8000_0000_0000_0000 <= hours < 0x8000_0000_0000_0000,
    ;
    let a = days * 24 + hours;
    assert(-0x1_0000_0000_0000_0000_0000_0000_00 < a * 60 + minutes
        < 0x1_0000_0000_0000_0000_0000_0000_00) by (nonlinear_arith)
        requires
            -0x1_0000_0000_0000_0000_0000_0000 < a < 0x1_0000_0000_0000_0000_0000_0000,
            -0x8000_0000_0000_0000 <= minutes < 0x8000_0000_0000_0000,
    ;
    let b = a * 60 + minutes;
    assert(-0x1_0000_0000_0000_0000_0000_0000_0000 < b * 60 + seconds
        < 0x1_0000_0000_0000_0000_0000_0000_0000) by (nonlinear_arith)
        requires
            -0x1_0000_0000_0000_0000_0000_0000_00 < b < 0x1_0000_0000_0000_0000_0000_0000_00,
            -0x8000_0000_0000_0000 <= seconds < 0x8000_0000_0000_0000,
    ;
}

/// The total number of seconds in the given parts, computed without overflow.
fn total_seconds_of(days: i64, hours: i64, minutes: i64, seconds: i64) -> (res: i128)
    ensures
        res as int == spec_total_seconds(days as int, hours as int, minutes as int, seconds as int),
        -0x1_0000_0000_0000_0000_0000_0000_0000 < res < 0x1_0000_0000_0000_0000_0000_0000_0000,
{
    proof {
        lemma_total_seconds_bounds(days, hours, minutes, seconds);
    }
    let a: i128 = (days as i128) * HOURS_PER_DAY + (hours as i128);
    let b: i128 = a * MINUTES_PER_HOUR + (minutes as i128);
    b * SECONDS_PER_MINUTE + (seconds as i128)
}

/// `value` negated to at most zero when `negative` holds.
fn apply_sign(value: i128, negative: bool) -> (res: i128)
    requires
        negative ==> value > i128::MIN,
    ensures
        res as int == signed_total(value as int, negative),
{
    if negative {
        if value < 0 {
            value
        } else {
            -value
        }
    } else {
        value
    }
}

impl DurationValue {
    /// A years-months duration of `years * 12 + months` months, made negative when
    /// `negative` holds.
    pub fn ym(years: i32, months: i32, negative: bool) -> (res: Self)
        ensures
            res == spec_ym(years as int, months as int, negative),
    {
        let total_months: i128 = (years as i128) * MONTHS_PER_YEAR + (months as i128);
        let signed = apply_sign(total_months, negative);
        DurationValue::YearsMonths { months: signed }
    }

    /// A days-time duration of the given days, hours, minutes and seconds, made negative
    /// when `negative` holds.
    pub fn dt(days: i64, hours: i64, minutes: i64, seconds: i64, negative: bool) -> (res: Self)
        ensures
            res == spec_dt(days as int, hours as int, minutes as int, seconds as int, negative),
    {
        let total = total_seconds_of(days, hours, minutes, seconds);
        DurationValue::dt_from_total_seconds(total, negative)
    }

    /// A days-time duration of `total_seconds` seconds, made negative when `negative` holds.
    pub fn dt_from_total_seconds(total_seconds: i128, negative: bool) -> (res: Self)
        requires
            negative ==> total_seconds > i128::MIN,
        ensures
            res == (DurationValue::DaysTime {
                seconds: signed_total(total_seconds as int, negative) as i128,
            }),
    {
        let signed = apply_sign(total_seconds, negative);
        DurationValue::DaysTime { seconds: signed }
    }

    /// A duration with both a month part and a second part, both made negative when
    /// `negative` holds; a part that is zero is left out of the kind of the result.
    pub fn combined(
        years: i32,
        months: i32,
        days: i64,
        hours: i64,
        minutes: i64,
        seconds: i64,
        negative: bool,
    ) -> (res: Self)
        ensures
            res == spec_from_totals(
                signed_total(spec_total_months(years as int, months as int), negative),
                signed_total(
                    spec_total_seconds(days as int, hours as int, minutes as int, seconds as int),
                    negative,
                ),
            ),
    {
        let months_total: i128 = (years as i128) * MONTHS_PER_YEAR + (months as i128);
        let seconds_total = total_seconds_of(days, hours, minutes, seconds);
        let months_signed = apply_sign(months_total, negative);
        let seconds_signed = apply_sign(seconds_total, negative);
        if months_signed == 0 {
            DurationValue::DaysTime { seconds: seconds_signed }
        } else if seconds_signed == 0 {
            DurationValue::YearsMonths { months: months_signed }
        } else {
            DurationValue::Combined { months: months_signed, seconds: seconds_signed }
        }
    }

    /// Whether the duration has no months and no seconds.
    pub fn is_zero(&self) -> (res: bool)
        ensures
            res == spec_is_zero(*self),
    {
        match self {
            DurationValue::YearsMonths { months } => *months == 0,
            DurationValue::DaysTime { seconds } => *seconds == 0,
            DurationValue::Combined { months, seconds } => *months == 0 && *seconds == 0,
        }
    }

    /// The month part and the second part of the duration.
    pub fn components(&self) -> (res: (i128, i128))
        ensures
            res.0 as int == spec_months(*self),
            res.1 as int == spec_seconds(*self),
    {
        match self {
            DurationValue::YearsMonths { months } => (*months, 0),
            DurationValue::DaysTime { seconds } => (0, *seconds),
            DurationValue::Combined { months, seconds } => (*months, *seconds),
        }
    }

    /// The duration with the given month total and second total; fails when one is
    /// positive and the other negative.
    pub fn from_components(months_total: i128, seconds_total: i128) -> (res: Result<
        Self,
        RuntimeError,
    >)
        ensures
            spec_mixed_signs(months_total as int, seconds_total as int) <==> res is Err,
            res matches Ok(d) ==> d == spec_from_totals(months_total as int, seconds_total as int),
            res matches Err(e) ==> e.error == RuntimeErrorEnum::EvalError(e.error->EvalError_0)
                && e.error->EvalError_0@ == mixed_signs_message() && e.context@.len() == 0,
    {
        if months_total != 0 && seconds_total != 0 && ((months_total > 0 && seconds_total < 0) || (
        months_total < 0 && seconds_total > 0)) {
            return Err(
                RuntimeError::eval_error(
                    String::from_str("Cannot represent duration with mixed month and day/time signs"),
                ),
            );
        }
        if months_total == 0 {
            Ok(DurationValue::DaysTime { seconds: seconds_total })
        } else if seconds_total == 0 {
            Ok(DurationValue::YearsMonths { months: months_total })
        } else {
            Ok(DurationValue::Combined { months: months_total, seconds: seconds_total })
        }
    }

    /// Whether the duration reads as negative.
    pub fn is_negative(&self) -> (res: bool)
        ensures
            res == spec_is_negative(*self),
    {
        match self {
            DurationValue::YearsMonths { months } => *months < 0,
            DurationValue::DaysTime { seconds } => *seconds < 0,
            DurationValue::Combined { months, seconds } => {
                if *months != 0 {
                    *months < 0
                } else {
                    *seconds < 0
                }
            },
        }
    }
}

} // verus!
