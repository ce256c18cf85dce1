use vstd::prelude::*;

use crate::decimal::{decimal_digits, push_decimal};
use crate::duration::{
    spec_is_negative, spec_is_zero, spec_months, spec_seconds, DurationValue, MONTHS_PER_YEAR,
    SECONDS_PER_DAY, SECONDS_PER_HOUR, SECONDS_PER_MINUTE,
};
use crate::text::{push_str_chars, string_from_chars};

verus! {

/// `value` followed by the unit letter `unit`, or nothing when `value` is zero.
pub open spec fn spec_unit_part(value: nat, unit: char) -> Seq<char> {
    if value != 0 {
        decimal_digits(value).push(unit)
    } else {
        Seq::empty()
    }
}

/// The `nY` and `nM` parts of a month total (years first, zero parts left out).
pub open spec fn spec_months_part(months_abs: nat) -> Seq<char> {
    spec_unit_part(months_abs / 12, 'Y') + spec_unit_part(months_abs % 12, 'M')
}

/// The `nD` part of a second total, then `T` with its `nH`, `nM` and `nS` parts when any
/// of them is not zero (zero parts left out).
pub open spec fn spec_days_time_part(seconds_abs: nat) -> Seq<char> {
    let days = seconds_abs / 86400;
    let remainder = seconds_abs % 86400;
    let hours = remainder / 3600;
    let minutes = (remainder % 3600) / 60;
    let seconds = remainder % 60;
    spec_unit_part(days, 'D') + if hours != 0 || minutes != 0 || seconds != 0 {
        seq!['T'] + spec_unit_part(hours, 'H') + spec_unit_part(minutes, 'M') + spec_unit_part(
            seconds,
            'S',
        )
    } else {
        Seq::empty()
    }
}

/// Absolute value of an integer.
pub open spec fn abs_int(v: int) -> nat {
    if v < 0 {
        (-v) as nat
    } else {
        v as nat
    }
}

/// The unit parts of a duration's ISO 8601 notation, after the `P`.
pub open spec fn spec_duration_parts(d: DurationValue) -> Seq<char> {
    match d {
        DurationValue::YearsMonths { months } => spec_months_part(abs_int(months as int)),
        DurationValue::DaysTime { seconds } => spec_days_time_part(abs_int(seconds as int)),
        DurationValue::Combined { months, seconds } => spec_months_part(abs_int(months as int))
            + spec_days_time_part(abs_int(seconds as int)),
    }
}

/// The ISO 8601 notation of a duration: `PT0S` for zero, otherwise an optional `-`,
/// `P`, the unit parts, and `T0S` should there be none.
pub open spec fn spec_iso_string(d: DurationValue) -> Seq<char> {
    if spec_is_zero(d) {
        "PT0S"@
    } else {
        let head = if spec_is_negative(d) {
            seq!['-', 'P']
        } else {
            seq!['P']
        };
        let parts = spec_duration_parts(d);
        if parts.len() == 0 {
            head + parts + "T0S"@
        } else {
            head + parts
        }
    }
}

/// Whether the month part and the second part of a duration can be made positive.
pub open spec fn spec_abs_representable(d: DurationValue) -> bool {
    spec_months(d) > i128::MIN && spec_seconds(d) > i128::MIN
}

/// Appends `value` and the unit letter `unit`, unless `value` is zero.
fn push_unit(out: &mut Vec<char>, value: i128, unit: char)
    requires
        value >= 0,
    ensures
        final(out)@ == old(out)@ + spec_unit_part(value as nat, unit),
{
    if value != 0 {
        push_decimal(out, value);
        out.push(unit);
        assert(out@ =~= old(out)@ + spec_unit_part(value as nat, unit));
    } else {
        assert(out@ =~= old(out)@ + spec_unit_part(value as nat, unit));
    }
}

/// Appends the years and months of a non-negative month total.
pub fn append_months_part(months_abs: i128, target: &mut Vec<char>)
    requires
        months_abs >= 0,
    ensures
        final(target)@ == old(target)@ + spec_months_part(months_abs as nat),
{
    if months_abs == 0 {
        assert(spec_months_part(0) =~= Seq::<char>::empty());
        assert(target@ =~= old(target)@ + spec_months_part(months_abs as nat));
        return ;
    }
    let years = months_abs / MONTHS_PER_YEAR;
    let months = months_abs % MONTHS_PER_YEAR;
    let ghost start = target@;
    push_unit(target, years, 'Y');
    push_unit(target, months, 'M');
    assert(target@ =~= start + spec_months_part(months_abs as nat));
}

/// Appends the days and the time of a non-negative second total.
pub fn append_days_time_part(seconds_abs: i128, target: &mut Vec<char>)
    requires
        seconds_abs >= 0,
    ensures
        final(target)@ == old(target)@ + spec_days_time_part(seconds_abs as nat),
{
    let ghost start = target@;
    if seconds_abs == 0 {
        assert(spec_days_time_part(0) =~= Seq::<char>::empty());
        assert(target@ =~= start + spec_days_time_part(seconds_abs as nat));
        return ;
    }
    let days = seconds_abs / SECONDS_PER_DAY;
    let mut remainder = seconds_abs % SECONDS_PER_DAY;
    push_unit(target, days, 'D');
    let ghost after_days = target@;
    let hours = remainder / SECONDS_PER_HOUR;
    remainder = remainder % SECONDS_PER_HOUR;
    let minutes = remainder / SECONDS_PER_MINUTE;
    let seconds = remainder % SECONDS_PER_MINUTE;
    proof {
        let r = (seconds_abs % 86400) as int;
        assert((r % 3600) % 60 == r % 60) by (nonlinear_arith)
            requires
                r >= 0,
        {
            vstd::arithmetic::div_mod::lemma_mod_mod(r, 60, 60);
        }
    }
    let ghost tail = if hours != 0 || minutes != 0 || seconds != 0 {
        seq!['T'] + spec_unit_part(hours as nat, 'H') + spec_unit_part(minutes as nat, 'M')
            + spec_unit_part(seconds as nat, 'S')
    } else {
        Seq::<char>::empty()
    };
    if hours != 0 || minutes != 0 || seconds != 0 {
        target.push('T');
        push_unit(target, hours, 'H');
        push_unit(target, minutes, 'M');
        push_unit(target, seconds, 'S');
        assert(target@ =~= after_days + tail);
    } else {
        assert(target@ =~= after_days + tail);
    }
    assert(spec_days_time_part(seconds_abs as nat) == spec_unit_part(days as nat, 'D') + tail);
    assert(target@ =~= start + spec_days_time_part(seconds_abs as nat));
}

/// Magnitude of a value that is not `i128::MIN`.
fn magnitude(v: i128) -> (res: i128)
    requires
        v > i128::MIN,
    ensures
        res as int == abs_int(v as int),
{
    if v < 0 {
        -v
    } else {
        v
    }
}

impl DurationValue {
    /// The ISO 8601 notation of the duration, such as `P1Y6M`, `-P2DT3H` or `PT0S`.
    pub fn to_iso_string(&self) -> (res: String)
        requires
            spec_abs_representable(*self),
        ensures
            res@ == spec_iso_string(*self),
    {
        if self.is_zero() {
            return String::from_str("PT0S");
        }
        let mut out: Vec<char> = Vec::new();
        if self.is_negative() {
            out.push('-');
        }
        out.push('P');
        let ghost head = out@;
        let head_len = out.len();
        match self {
            DurationValue::YearsMonths { months } => {
                append_months_part(magnitude(*months), &mut out);
            },
            DurationValue::DaysTime { seconds } => {
                append_days_time_part(magnitude(*seconds), &mut out);
            },
            DurationValue::Combined { months, seconds } => {
                append_months_part(magnitude(*months), &mut out);
                append_days_time_part(magnitude(*seconds), &mut out);
            },
        }
        assert(out@ =~= head + spec_duration_parts(*self));
        if out.len() == head_len {
            push_str_chars(&mut out, "T0S");
        }
        string_from_chars(out.as_slice())
    }
}

} // verus!
