use vstd::prelude::*;

use crate::decimal::{
    decimal_digits, digits_value, is_digit, lemma_decimal_digits_shape,
    spec_digits_part, spec_parse_in_range, spec_parse_integer,
};
use crate::duration::{
    signed_total, spec_dt, spec_is_negative, spec_months, spec_seconds,
    spec_total_months, spec_total_seconds, DurationValue,
};
use crate::iso_format::{
    abs_int, spec_days_time_part, spec_duration_parts, spec_iso_string, spec_months_part,
    spec_unit_part,
};
use crate::iso_parse::{
    first_alpha, is_ascii_alpha, spec_finish_scan, spec_i64_value,
    spec_initial_scan, spec_parse_duration, spec_scan_units, DurationScan,
};

verus! {

/// The reader's state after the unit `unit` with the value `v`.
pub open spec fn spec_apply_unit(st: DurationScan, unit: char, v: int) -> DurationScan {
    if unit == 'Y' {
        DurationScan { years: v as i32, saw_ym: true, ..st }
    } else if unit == 'M' && !st.in_time {
        DurationScan { months: v as i32, saw_ym: true, ..st }
    } else if unit == 'D' {
        DurationScan { days: v as i64, saw_dt: true, ..st }
    } else if unit == 'H' {
        DurationScan { hours: v as i64, saw_dt: true, ..st }
    } else if unit == 'M' && st.in_time {
        DurationScan { minutes: v as i64, saw_dt: true, ..st }
    } else {
        DurationScan { seconds: v as i64, saw_dt: true, ..st }
    }
}

/// Whether `v` fits the range the reader accepts for the unit `unit`.
pub open spec fn spec_unit_value_fits(st: DurationScan, unit: char, v: int) -> bool {
    if unit == 'Y' || (unit == 'M' && !st.in_time) {
        v <= i32::MAX
    } else {
        v <= i64::MAX
    }
}

proof fn lemma_parse_decimal(x: nat, lo: int, hi: int)
    requires
        lo <= 0,
        x <= hi,
    ensures
        spec_parse_in_range(decimal_digits(x), lo, hi) == Some(x as int),
{
    lemma_decimal_digits_shape(x);
    let s = decimal_digits(x);
    assert(is_digit(s[0]));
    assert(s[0] != '-' && s[0] != '+');
    assert(spec_digits_part(s) == s);
    assert(spec_parse_integer(s) == Some(digits_value(s)));
}

proof fn lemma_number_then_unit(x: nat, unit: char, rest: Seq<char>)
    requires
        is_ascii_alpha(unit),
    ensures
        ({
            let r = decimal_digits(x).push(unit) + rest;
            let k = decimal_digits(x).len();
            &&& first_alpha(r) == k
            &&& r[k as int] == unit
            &&& r.take(k as int) == decimal_digits(x)
            &&& r.skip(k as int + 1) == rest
        }),
{
    lemma_decimal_digits_shape(x);
    let d = decimal_digits(x);
    let r = d.push(unit) + rest;
    let k = d.len();
    assert forall|i: int| 0 <= i < k implies !is_ascii_alpha(#[trigger] r[i]) by {
        assert(r[i] == d[i]);
        assert(is_digit(d[i]));
    }
    lemma_first_alpha_at(r, k as int);
    assert(r.take(k as int) =~= d);
    assert(r.skip(k as int + 1) =~= rest);
}

proof fn lemma_first_alpha_at(r: Seq<char>, j: int)
    requires
        0 <= j < r.len(),
        forall|i: int| 0 <= i < j ==> !is_ascii_alpha(#[trigger] r[i]),
        is_ascii_alpha(r[j]),
    ensures
        first_alpha(r) == j,
    decreases j,
{
    if j > 0 {
        let t = r.drop_first();
        assert forall|i: int| 0 <= i < j - 1 implies !is_ascii_alpha(#[trigger] t[i]) by {
            assert(t[i] == r[i + 1]);
        }
        assert(t[j - 1] == r[j]);
        lemma_first_alpha_at(t, j - 1);
        assert(!is_ascii_alpha(r[0]));
    }
}

proof fn lemma_unit_part_step(x: nat, unit: char, rest: Seq<char>, st: DurationScan)
    requires
        unit == 'Y' || unit == 'M' || unit == 'D' || unit == 'H' || unit == 'S',
        spec_unit_value_fits(st, unit, x as int),
    ensures
        spec_scan_units(spec_unit_part(x, unit) + rest, st) == (if x == 0 {
            spec_scan_units(rest, st)
        } else {
            spec_scan_units(rest, spec_apply_unit(st, unit, x as int))
        }),
{
    if x == 0 {
        assert(spec_unit_part(x, unit) + rest =~= rest);
    } else {
        lemma_number_then_unit(x, unit, rest);
        lemma_decimal_digits_shape(x);
        let r = spec_unit_part(x, unit) + rest;
        assert(r == decimal_digits(x).push(unit) + rest);
        lemma_parse_decimal(x, i64::MIN as int, i64::MAX as int);
        assert(spec_i64_value(decimal_digits(x)) == Some(x as int));
    }
}

proof fn lemma_time_marker_step(rest: Seq<char>, st: DurationScan)
    ensures
        spec_scan_units(seq!['T'] + rest, st) == spec_scan_units(
            rest,
            DurationScan { in_time: true, ..st },
        ),
{
    let r = seq!['T'] + rest;
    assert(is_ascii_alpha(r[0]));
    assert(first_alpha(r) == 0);
    assert(r.skip(1) =~= rest);
}

proof fn lemma_scan_empty(st: DurationScan)
    ensures
        spec_scan_units(Seq::empty(), st) == Some(st),
{
    assert(first_alpha(Seq::<char>::empty()) == 0);
}

proof fn lemma_months_part_scan(months_abs: nat)
    requires
        0 < months_abs,
        months_abs / 12 <= i32::MAX,
    ensures
        spec_scan_units(spec_months_part(months_abs), spec_initial_scan()) == Some(
            DurationScan {
                years: (months_abs / 12) as i32,
                months: (months_abs % 12) as i32,
                saw_ym: true,
                ..spec_initial_scan()
            },
        ),
{
    let y = months_abs / 12;
    let m = months_abs % 12;
    let st0 = spec_initial_scan();
    let p2 = spec_unit_part(m, 'M');
    lemma_unit_part_step(y, 'Y', p2, st0);
    let st1 = if y == 0 {
        st0
    } else {
        spec_apply_unit(st0, 'Y', y as int)
    };
    lemma_unit_part_step(m, 'M', Seq::empty(), st1);
    assert(p2 + Seq::<char>::empty() =~= p2);
    let st2 = if m == 0 {
        st1
    } else {
        spec_apply_unit(st1, 'M', m as int)
    };
    lemma_scan_empty(st2);
    assert(y != 0 || m != 0);
}

proof fn lemma_days_time_part_scan(seconds_abs: nat)
    requires
        0 < seconds_abs,
        seconds_abs / 86400 <= i64::MAX,
    ensures
        ({
            let days = seconds_abs / 86400;
            let remainder = seconds_abs % 86400;
            let hours = remainder / 3600;
            let minutes = (remainder % 3600) / 60;
            let seconds = remainder % 60;
            spec_scan_units(spec_days_time_part(seconds_abs), spec_initial_scan()) == Some(
                DurationScan {
                    days: days as i64,
                    hours: hours as i64,
                    minutes: minutes as i64,
                    seconds: seconds as i64,
                    in_time: hours != 0 || minutes != 0 || seconds != 0,
                    saw_dt: days != 0 || hours != 0 || minutes != 0 || seconds != 0,
                    ..spec_initial_scan()
                },
            )
        }),
{
    let days = seconds_abs / 86400;
    let remainder = seconds_abs % 86400;
    let hours = remainder / 3600;
    let minutes = (remainder % 3600) / 60;
    let seconds = remainder % 60;
    let st0 = spec_initial_scan();
    let ph = spec_unit_part(hours, 'H');
    let pm = spec_unit_part(minutes, 'M');
    let ps = spec_unit_part(seconds, 'S');
    let timed = hours != 0 || minutes != 0 || seconds != 0;
    let tail = if timed {
        seq!['T'] + ph + pm + ps
    } else {
        Seq::<char>::empty()
    };
    assert(spec_days_time_part(seconds_abs) == spec_unit_part(days, 'D') + tail);
    lemma_unit_part_step(days, 'D', tail, st0);
    let st1 = if days == 0 {
        st0
    } else {
        spec_apply_unit(st0, 'D', days as int)
    };
    if timed {
        assert(tail =~= seq!['T'] + (ph + (pm + (ps + Seq::<char>::empty()))));
        lemma_time_marker_step(ph + (pm + (ps + Seq::<char>::empty())), st1);
        let st2 = DurationScan { in_time: true, ..st1 };
        lemma_unit_part_step(hours, 'H', pm + (ps + Seq::<char>::empty()), st2);
        let st3 = if hours == 0 {
            st2
        } else {
            spec_apply_unit(st2, 'H', hours as int)
        };
        lemma_unit_part_step(minutes, 'M', ps + Seq::<char>::empty(), st3);
        let st4 = if minutes == 0 {
            st3
        } else {
            spec_apply_unit(st3, 'M', minutes as int)
        };
        lemma_unit_part_step(seconds, 'S', Seq::empty(), st4);
        let st5 = if seconds == 0 {
            st4
        } else {
            spec_apply_unit(st4, 'S', seconds as int)
        };
        lemma_scan_empty(st5);
    } else {
        lemma_scan_empty(st1);
        assert(days != 0);
    }
}

proof fn lemma_seconds_split(total: nat)
    ensures
        ({
            let days = total / 86400;
            let remainder = total % 86400;
            let hours = remainder / 3600;
            let minutes = (remainder % 3600) / 60;
            let seconds = remainder % 60;
            spec_total_seconds(days as int, hours as int, minutes as int, seconds as int) == total
        }),
{
    let days = total / 86400;
    let remainder = total % 86400;
    let hours = remainder / 3600;
    let minutes = (remainder % 3600) / 60;
    let seconds = remainder % 60;
    assert(total == days * 86400 + remainder);
    assert(remainder == hours * 3600 + remainder % 3600);
    assert(remainder % 3600 == minutes * 60 + (remainder % 3600) % 60);
    assert((remainder % 3600) % 60 == remainder % 60) by (nonlinear_arith)
        requires
            remainder >= 0,
    {
        vstd::arithmetic::div_mod::lemma_mod_mod(remainder as int, 60, 60);
    }
}

proof fn lemma_head_then_parts(neg: bool, parts: Seq<char>)
    ensures
        ({
            let head = if neg {
                seq!['-', 'P']
            } else {
                seq!['P']
            };
            let s = head + parts;
            let p: int = if neg {
                1
            } else {
                0
            };
            &&& s.len() > 0
            &&& (s[0] == '-') == neg
            &&& p < s.len()
            &&& s[p] == 'P'
            &&& s.skip(p + 1) == parts
        }),
{
    let head = if neg {
        seq!['-', 'P']
    } else {
        seq!['P']
    };
    let s = head + parts;
    let p: int = if neg {
        1
    } else {
        0
    };
    assert(s.skip(p + 1) =~= parts);
}

/// What the library writes as ISO 8601 it reads back: reading the notation of a
/// years-months duration with months, or of a days-time duration, gives the same
/// duration (the day and year counts must fit the ranges the reader accepts).
pub proof fn lemma_iso_string_reads_back(d: DurationValue)
    requires
        (d is YearsMonths && spec_months(d) != 0 && i128::MIN < spec_months(d) && abs_int(
            spec_months(d),
        ) / 12 <= i32::MAX) || (d is DaysTime && i128::MIN < spec_seconds(d) && abs_int(
            spec_seconds(d),
        ) / 86400 <= i64::MAX),
    ensures
        spec_parse_duration(spec_iso_string(d)) == Some(d),
{
    match d {
        DurationValue::YearsMonths { months } => {
            let a = abs_int(months as int);
            let parts = spec_months_part(a);
            lemma_months_part_scan(a);
            let neg = spec_is_negative(d);
            lemma_head_then_parts(neg, parts);
            assert(parts.len() > 0) by {
                if a / 12 != 0 {
                    lemma_decimal_digits_shape(a / 12);
                } else {
                    lemma_decimal_digits_shape(a % 12);
                }
            }
            assert(spec_duration_parts(d) == parts);
            assert(spec_total_months((a / 12) as int, (a % 12) as int) == a);
            assert(signed_total(a as int, neg) == months);
        },
        DurationValue::DaysTime { seconds } => {
            if seconds == 0 {
                reveal_strlit("PT0S");
                let s = spec_iso_string(d);
                assert(s == "PT0S"@);
                assert(s.skip(1) =~= seq!['T'] + (seq!['0', 'S'] + Seq::<char>::empty()));
                lemma_time_marker_step(seq!['0', 'S'] + Seq::<char>::empty(), spec_initial_scan());
                let st1 = DurationScan { in_time: true, ..spec_initial_scan() };
                assert(seq!['0', 'S'] == spec_unit_part(0, 'S') + seq!['0', 'S']) by {
                    assert(spec_unit_part(0, 'S') =~= Seq::<char>::empty());
                    assert(seq!['0', 'S'] =~= Seq::<char>::empty() + seq!['0', 'S']);
                }
                assert(decimal_digits(0) == seq!['0']);
                lemma_number_then_unit(0, 'S', Seq::empty());
                assert(decimal_digits(0).push('S') + Seq::<char>::empty() =~= seq!['0', 'S']
                    + Seq::<char>::empty());
                lemma_parse_decimal(0, i64::MIN as int, i64::MAX as int);
                let st2 = DurationScan { seconds: 0, saw_dt: true, ..st1 };
                lemma_scan_empty(st2);
                assert(spec_scan_units(s.skip(1), spec_initial_scan()) == Some(st2));
                assert(spec_finish_scan(st2, false) == Some(spec_dt(0, 0, 0, 0, false)));
            } else {
                let a = abs_int(seconds as int);
                let parts = spec_days_time_part(a);
                lemma_days_time_part_scan(a);
                lemma_seconds_split(a);
                let neg = spec_is_negative(d);
                lemma_head_then_parts(neg, parts);
                assert(parts.len() > 0) by {
                    let days = a / 86400;
                    let remainder = a % 86400;
                    let hours = remainder / 3600;
                    let minutes = (remainder % 3600) / 60;
                    let secs = remainder % 60;
                    if days != 0 {
                        lemma_decimal_digits_shape(days);
                    } else {
                        assert(hours != 0 || minutes != 0 || secs != 0);
                    }
                }
                assert(spec_duration_parts(d) == parts);
                assert(signed_total(a as int, neg) == seconds);
            }
        },
        DurationValue::Combined { .. } => {},
    }
}

} // verus!
