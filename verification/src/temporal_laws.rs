use vstd::prelude::*;

use crate::calendar::spec_last_day_of_month;
use crate::duration::{spec_seconds, DurationValue};
use crate::operators::{ComparatorEnum, MathOperatorEnum};
use crate::temporal::{
    spec_chrono_fold, spec_clock_time_of, spec_datetime_moved, spec_instant, spec_julian_day,
    spec_shift_months, spec_chrono_compare, CalendarDate, CalendarDateTime, MAX_YEAR, MIN_YEAR,
    Chronological, ClockTime,
};
use crate::errors::RuntimeError;
use crate::types::{SpecialValueEnum, ValueOrSv};

verus! {

proof fn lemma_clock_time_seconds(x: int)
    ensures
        spec_clock_time_of(x).seconds_of_day() == x % 86400,
        spec_clock_time_of(x).wf(),
{
    let s = x % 86400;
    vstd::arithmetic::div_mod::lemma_fundamental_div_mod(x, 86400);
    vstd::arithmetic::div_mod::lemma_fundamental_div_mod(s, 3600);
    vstd::arithmetic::div_mod::lemma_fundamental_div_mod(s % 3600, 60);
    vstd::arithmetic::div_mod::lemma_mod_mod(s, 3600, 60);
    assert(0 <= s / 3600 < 24) by (nonlinear_arith)
        requires
            0 <= s < 86400,
    {
        vstd::arithmetic::div_mod::lemma_div_is_ordered(s, 86399, 3600);
    }
    assert(0 <= (s % 3600) / 60 < 60) by (nonlinear_arith)
        requires
            0 <= s % 3600 < 3600,
    {
        vstd::arithmetic::div_mod::lemma_div_is_ordered(s % 3600, 3599, 60);
    }
}

/// A time of day that is well formed is the clock time of its own seconds since midnight.
proof fn lemma_clock_time_of_own_seconds(t: ClockTime)
    requires
        t.wf(),
    ensures
        spec_clock_time_of(t.seconds_of_day()) == t,
{
    let x = t.seconds_of_day();
    vstd::arithmetic::div_mod::lemma_small_mod(x as nat, 86400);
    vstd::arithmetic::div_mod::lemma_fundamental_div_mod_converse(
        x,
        3600,
        t.hour as int,
        t.minute * 60 + t.second,
    );
    vstd::arithmetic::div_mod::lemma_fundamental_div_mod_converse(
        t.minute * 60 + t.second,
        60,
        t.minute as int,
        t.second as int,
    );
}

/// Moving a time of day forward by a number of seconds and then back by the same number
/// gives the time of day it started from: the clock wraps around midnight both ways.
pub proof fn lemma_time_move_undone(t: ClockTime, seconds: int)
    requires
        t.wf(),
    ensures
        spec_clock_time_of(spec_clock_time_of(t.seconds_of_day() + seconds).seconds_of_day()
            - seconds) == t,
{
    let x = t.seconds_of_day() + seconds;
    lemma_clock_time_seconds(x);
    let y = x % 86400 - seconds;
    vstd::arithmetic::div_mod::lemma_fundamental_div_mod(x, 86400);
    let q = x / 86400;
    assert(y == t.seconds_of_day() + (-q) * 86400) by (nonlinear_arith)
        requires
            x == 86400 * q + x % 86400,
            y == x % 86400 - seconds,
            x == t.seconds_of_day() + seconds,
    ;
    vstd::arithmetic::div_mod::lemma_mod_multiples_vanish(-q, t.seconds_of_day(), 86400);
    assert(y % 86400 == t.seconds_of_day() % 86400) by {
        assert((86400 * (-q) + t.seconds_of_day()) == y) by (nonlinear_arith)
            requires
                y == t.seconds_of_day() + (-q) * 86400,
        ;
    }
    vstd::arithmetic::div_mod::lemma_small_mod(t.seconds_of_day() as nat, 86400);
    lemma_clock_time_of_own_seconds(t);
    assert(spec_clock_time_of(y) == spec_clock_time_of(t.seconds_of_day()));
}

/// Two well-formed dates with the same place on the time line are the same date.
pub proof fn lemma_date_keys_distinct(a: CalendarDate, b: CalendarDate)
    requires
        a.wf(),
        b.wf(),
        a.spec_order_key() == b.spec_order_key(),
    ensures
        a == b,
{
    let ka = a.year * 13 + a.month;
    let kb = b.year * 13 + b.month;
    vstd::arithmetic::div_mod::lemma_fundamental_div_mod_converse(
        a.spec_order_key(),
        32,
        ka,
        a.day as int,
    );
    vstd::arithmetic::div_mod::lemma_fundamental_div_mod_converse(
        b.spec_order_key(),
        32,
        kb,
        b.day as int,
    );
    vstd::arithmetic::div_mod::lemma_fundamental_div_mod_converse(ka, 13, a.year as int, a.month as int);
    vstd::arithmetic::div_mod::lemma_fundamental_div_mod_converse(kb, 13, b.year as int, b.month as int);
}

/// Two well-formed times of day with the same place on the time line are the same time.
pub proof fn lemma_time_keys_distinct(a: ClockTime, b: ClockTime)
    requires
        a.wf(),
        b.wf(),
        a.spec_order_key() == b.spec_order_key(),
    ensures
        a == b,
{
    lemma_clock_time_of_own_seconds(a);
    lemma_clock_time_of_own_seconds(b);
}

/// Two well-formed dates and times with the same place on the time line are the same.
pub proof fn lemma_datetime_keys_distinct(a: CalendarDateTime, b: CalendarDateTime)
    requires
        a.wf(),
        b.wf(),
        a.spec_order_key() == b.spec_order_key(),
    ensures
        a == b,
{
    vstd::arithmetic::div_mod::lemma_fundamental_div_mod_converse(
        a.spec_order_key(),
        0x10_0000,
        a.date.spec_order_key(),
        a.time.spec_order_key(),
    );
    vstd::arithmetic::div_mod::lemma_fundamental_div_mod_converse(
        b.spec_order_key(),
        0x10_0000,
        b.date.spec_order_key(),
        b.time.spec_order_key(),
    );
    lemma_date_keys_distinct(a.date, b.date);
    lemma_time_keys_distinct(a.time, b.time);
}

/// The latest (or earliest) value that `max` (or `min`) finds among the first `n` values is
/// one of them, and no value among them lies after (or before) it.
pub proof fn lemma_chrono_extreme_is_bound<T: Chronological>(
    values: Seq<ValueOrSv<T, SpecialValueEnum>>,
    n: int,
    want_max: bool,
)
    requires
        0 <= n <= values.len(),
    ensures
        spec_chrono_fold(values, n, want_max) matches Some(Some(m)) ==> {
            &&& exists|i: int| 0 <= i < n && values[i] == ValueOrSv::<T, SpecialValueEnum>::Value(m)
            &&& forall|j: int|
                0 <= j < n ==> (#[trigger] values[j] matches ValueOrSv::Value(v) && (want_max
                    ==> v.spec_order_key() <= m.spec_order_key()) && (!want_max
                    ==> v.spec_order_key() >= m.spec_order_key()))
        },
    decreases n,
{
    if n > 0 {
        lemma_chrono_extreme_is_bound(values, n - 1, want_max);
        if let Some(Some(m)) = spec_chrono_fold(values, n, want_max) {
            if let Some(Some(b)) = spec_chrono_fold(values, n - 1, want_max) {
                let i = choose|i: int|
                    0 <= i < n - 1 && values[i] == ValueOrSv::<T, SpecialValueEnum>::Value(b);
                if m == b {
                    assert(values[i] == ValueOrSv::<T, SpecialValueEnum>::Value(m));
                } else {
                    assert(values[n - 1] == ValueOrSv::<T, SpecialValueEnum>::Value(m));
                }
            } else {
                assert(values[n - 1] == ValueOrSv::<T, SpecialValueEnum>::Value(m));
            }
        }
    }
}

/// Moving a date and time forward by a days-time duration and then measuring the time from
/// the start to the result gives back that duration.
pub proof fn lemma_datetime_move_measured(
    dt: CalendarDateTime,
    duration: DurationValue,
    moved: CalendarDateTime,
)
    requires
        dt.wf(),
        duration is DaysTime,
        spec_seconds(duration) != 0,
        spec_datetime_moved(
            dt,
            duration,
            MathOperatorEnum::Addition,
            Ok::<CalendarDateTime, RuntimeError>(moved),
        ),
    ensures
        spec_instant(moved) - spec_instant(dt) == spec_seconds(duration),
        (DurationValue::DaysTime {
            seconds: (spec_instant(moved) - spec_instant(dt)) as i128,
        }) == duration,
{
}

/// The days from one date to another are the days back from the other to the first.
pub proof fn lemma_date_difference_antisymmetric(a: CalendarDate, b: CalendarDate)
    ensures
        (spec_julian_day(a) - spec_julian_day(b)) * 86400 == -((spec_julian_day(b)
            - spec_julian_day(a)) * 86400),
{
}

/// Moving a date by a number of months and then back by the same number gives the date it
/// started from, when no month on the way is too short for its day (day 28 or earlier) and
/// the year stays within ±9999.
pub proof fn lemma_month_shift_undone(date: CalendarDate, months: int)
    requires
        date.wf(),
        date.day <= 28,
        spec_shift_months(date, months) is Some,
    ensures
        spec_shift_months(spec_shift_months(date, months).unwrap(), -months) == Some(date),
{
    let index = date.year * 12 + (date.month - 1) + months;
    let shifted = spec_shift_months(date, months).unwrap();
    vstd::arithmetic::div_mod::lemma_fundamental_div_mod(index, 12);
    assert(28 <= spec_last_day_of_month(index / 12, index % 12 + 1));
    assert(shifted.day == date.day);
    let back = shifted.year * 12 + (shifted.month - 1) - months;
    assert(back == date.year * 12 + (date.month - 1));
    vstd::arithmetic::div_mod::lemma_fundamental_div_mod_converse(
        back,
        12,
        date.year as int,
        date.month - 1,
    );
    assert(28 <= spec_last_day_of_month(date.year as int, date.month as int));
}

/// Moving a date by whole months lands in the month `months` after (before, for a negative
/// count) the date's own, counted across years, and keeps the day of the month whenever that
/// day exists in the month reached; otherwise it takes the last day of that month.
pub proof fn lemma_month_shift_keeps_day(date: CalendarDate, months: int)
    requires
        date.wf(),
    ensures
        spec_shift_months(date, months) is Some <==> MIN_YEAR <= (date.year * 12 + date.month - 1
            + months) / 12 <= MAX_YEAR,
        spec_shift_months(date, months) matches Some(r) ==> {
            &&& 1 <= r.month <= 12
            &&& r.year * 12 + r.month == date.year * 12 + date.month + months
            &&& (date.day <= spec_last_day_of_month(r.year as int, r.month as int) ==> r.day
                == date.day)
            &&& (date.day > spec_last_day_of_month(r.year as int, r.month as int) ==> r.day
                == spec_last_day_of_month(r.year as int, r.month as int))
        },
{
    let index = date.year * 12 + (date.month - 1) + months;
    let year = index / 12;
    let month = index % 12 + 1;
    assert(year * 12 + index % 12 == index) by {
        vstd::arithmetic::div_mod::lemma_fundamental_div_mod(index, 12);
    }
    assert(0 <= index % 12 < 12) by {
        vstd::arithmetic::div_mod::lemma_mod_bound(index, 12);
    }
    let last = spec_last_day_of_month(year, month);
    assert(28 <= last <= 31);
    if MIN_YEAR <= year <= MAX_YEAR {
        assert((year as i32) as int == year);
        assert((month as u8) as int == month);
    }
}

/// Comparing values along the time line: `>=` holds exactly when `>` or `=` holds, `<=`
/// exactly when `<` or `=` holds, `<>` exactly when `=` does not, `>` exactly when `<=` does
/// not, and `>`, `<` are each other's mirror; every value is `=`, `>=` and `<=` to itself.
pub proof fn lemma_chrono_comparators_agree<T: Chronological>(a: T, b: T)
    ensures
        spec_chrono_compare(a, ComparatorEnum::GreaterEquals, b) == (spec_chrono_compare(
            a,
            ComparatorEnum::Greater,
            b,
        ) || spec_chrono_compare(a, ComparatorEnum::Equals, b)),
        spec_chrono_compare(a, ComparatorEnum::LessEquals, b) == (spec_chrono_compare(
            a,
            ComparatorEnum::Less,
            b,
        ) || spec_chrono_compare(a, ComparatorEnum::Equals, b)),
        spec_chrono_compare(a, ComparatorEnum::GreaterEquals, b) == !spec_chrono_compare(
            a,
            ComparatorEnum::Less,
            b,
        ),
        spec_chrono_compare(a, ComparatorEnum::Greater, b) == !spec_chrono_compare(
            a,
            ComparatorEnum::LessEquals,
            b,
        ),
        spec_chrono_compare(a, ComparatorEnum::NotEquals, b) == !spec_chrono_compare(
            a,
            ComparatorEnum::Equals,
            b,
        ),
        spec_chrono_compare(a, ComparatorEnum::Greater, b) == spec_chrono_compare(
            b,
            ComparatorEnum::Less,
            a,
        ),
        spec_chrono_compare(a, ComparatorEnum::Equals, a),
        spec_chrono_compare(a, ComparatorEnum::GreaterEquals, a),
        spec_chrono_compare(a, ComparatorEnum::LessEquals, a),
        !spec_chrono_compare(a, ComparatorEnum::Less, a),
        !spec_chrono_compare(a, ComparatorEnum::Greater, a),
{
}

/// Dates compare in calendar order: a date in an earlier year, or in an earlier month of
/// the same year, or on an earlier day of the same month, comes before; the same date is
/// equal.
pub proof fn lemma_dates_in_calendar_order(a: CalendarDate, b: CalendarDate)
    requires
        a.wf(),
        b.wf(),
    ensures
        (a.year < b.year || (a.year == b.year && a.month < b.month) || (a.year == b.year
            && a.month == b.month && a.day < b.day)) ==> spec_chrono_compare(
            a,
            ComparatorEnum::Less,
            b,
        ),
        a == b ==> spec_chrono_compare(a, ComparatorEnum::Equals, b),
        spec_chrono_compare(a, ComparatorEnum::Equals, b) ==> a == b,
{
    assert(a.day <= 31 && b.day <= 31);
    let ka = (a.year * 13 + a.month) * 32 + a.day;
    let kb = (b.year * 13 + b.month) * 32 + b.day;
    assert(a.year < b.year ==> ka < kb) by (nonlinear_arith)
        requires
            1 <= a.month <= 12,
            1 <= b.month <= 12,
            1 <= a.day <= 31,
            1 <= b.day <= 31,
            ka == (a.year * 13 + a.month) * 32 + a.day,
            kb == (b.year * 13 + b.month) * 32 + b.day,
    ;
    assert(a.year > b.year ==> ka > kb) by (nonlinear_arith)
        requires
            1 <= a.month <= 12,
            1 <= b.month <= 12,
            1 <= a.day <= 31,
            1 <= b.day <= 31,
            ka == (a.year * 13 + a.month) * 32 + a.day,
            kb == (b.year * 13 + b.month) * 32 + b.day,
    ;
}

/// Times of day compare by the seconds since midnight: an earlier time comes before.
pub proof fn lemma_times_in_clock_order(a: ClockTime, b: ClockTime)
    ensures
        a.seconds_of_day() < b.seconds_of_day() ==> spec_chrono_compare(
            a,
            ComparatorEnum::Less,
            b,
        ),
        a.seconds_of_day() == b.seconds_of_day() ==> spec_chrono_compare(
            a,
            ComparatorEnum::Equals,
            b,
        ),
{
}

} // verus!
