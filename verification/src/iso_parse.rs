use vstd::prelude::*;

use crate::decimal::{parse_integer_in_range, spec_parse_in_range};
use crate::duration::{spec_dt, spec_ym, DurationValue};
use crate::text::chars_of;

verus! {

/// What the duration reader has collected so far.
#[derive(Clone, Copy, Debug, PartialEq, Eq, Structural)]
pub struct DurationScan {
    pub years: i32,
    pub months: i32,
    pub days: i64,
    pub hours: i64,
    pub minutes: i64,
    pub seconds: i64,
    /// A `T` was met: `M` now means minutes.
    pub in_time: bool,
    /// A year or month part was met.
    pub saw_ym: bool,
    /// A day, hour, minute or second part was met.
    pub saw_dt: bool,
}

/// Nothing read yet.
pub open spec fn spec_initial_scan() -> DurationScan {
    DurationScan {
        years: 0,
        months: 0,
        days: 0,
        hours: 0,
        minutes: 0,
        seconds: 0,
        in_time: false,
        saw_ym: false,
        saw_dt: false,
    }
}

/// Whether `c` is an ASCII letter.
pub open spec fn is_ascii_alpha(c: char) -> bool {
    ('a' <= c && c <= 'z') || ('A' <= c && c <= 'Z')
}

/// The position of the first ASCII letter of `r`, or its length when there is none.
pub open spec fn first_alpha(r: Seq<char>) -> nat
    decreases r.len(),
{
    if r.len() == 0 {
        0
    } else if is_ascii_alpha(r[0]) {
        0
    } else {
        1 + first_alpha(r.drop_first())
    }
}

/// The range of `i64`, as the reader accepts days, hours, minutes and seconds.
pub open spec fn spec_i64_value(num: Seq<char>) -> Option<int> {
    spec_parse_in_range(num, i64::MIN as int, i64::MAX as int)
}

/// Reads the unit parts of a duration after the `P`. Each part is the text before the
/// next ASCII letter, read as a 64-bit integer, and that letter as its unit: `Y` years and
/// `M` months (both cut to 32 bits), `D` days, `T` the switch to time (after which `M` means
/// minutes), `H` hours, `S` seconds. Any other letter fails, and so does a text that is no
/// integer; a letter with nothing before it fails unless it is `T`. Text after the last
/// letter must be an integer too, and is then ignored.
pub open spec fn spec_scan_units(r: Seq<char>, st: DurationScan) -> Option<DurationScan>
    decreases r.len(),
{
    let k = first_alpha(r);
    if k >= r.len() {
        if k == 0 || spec_i64_value(r) is Some {
            Some(st)
        } else {
            None
        }
    } else {
        let unit = r[k as int];
        let num = r.take(k as int);
        let rest = r.skip(k as int + 1);
        if k == 0 {
            if unit == 'T' {
                spec_scan_units(rest, DurationScan { in_time: true, ..st })
            } else {
                None
            }
        } else {
            match spec_i64_value(num) {
                None => None,
                Some(v) => if unit == 'Y' {
                    spec_scan_units(rest, DurationScan { years: v as i32, saw_ym: true, ..st })
                } else if unit == 'M' && !st.in_time {
                    spec_scan_units(rest, DurationScan { months: v as i32, saw_ym: true, ..st })
                } else if unit == 'D' {
                    spec_scan_units(rest, DurationScan { days: v as i64, saw_dt: true, ..st })
                } else if unit == 'T' {
                    spec_scan_units(rest, DurationScan { in_time: true, ..st })
                } else if unit == 'H' {
                    spec_scan_units(rest, DurationScan { hours: v as i64, saw_dt: true, ..st })
                } else if unit == 'M' && st.in_time {
                    spec_scan_units(rest, DurationScan { minutes: v as i64, saw_dt: true, ..st })
                } else if unit == 'S' {
                    spec_scan_units(rest, DurationScan { seconds: v as i64, saw_dt: true, ..st })
                } else {
                    None
                },
            }
        }
    }
}

/// The duration read: none when years or months were mixed with days or time; a years-months
/// duration when there were years or months; a days-time one otherwise.
pub open spec fn spec_finish_scan(st: DurationScan, negative: bool) -> Option<DurationValue> {
    if st.saw_ym && st.saw_dt {
        None
    } else if st.saw_ym {
        Some(spec_ym(st.years as int, st.months as int, negative))
    } else {
        Some(
            spec_dt(
                st.days as int,
                st.hours as int,
                st.minutes as int,
                st.seconds as int,
                negative,
            ),
        )
    }
}

/// The duration written in `s` as `[-]P[nY][nM][nD][T[nH][nM][nS]]`; years or months
/// never stand with days, hours, minutes or seconds.
pub open spec fn spec_parse_duration(s: Seq<char>) -> Option<DurationValue> {
    if s.len() == 0 {
        None
    } else {
        let negative = s[0] == '-';
        let p: int = if negative {
            1
        } else {
            0
        };
        if p >= s.len() || s[p] != 'P' {
            None
        } else {
            match spec_scan_units(s.skip(p + 1), spec_initial_scan()) {
                Some(st) => spec_finish_scan(st, negative),
                None => None,
            }
        }
    }
}

proof fn lemma_first_alpha(r: Seq<char>, j: int)
    requires
        0 <= j <= r.len(),
        forall|i: int| 0 <= i < j ==> !is_ascii_alpha(#[trigger] r[i]),
        j == r.len() || is_ascii_alpha(r[j]),
    ensures
        first_alpha(r) == j,
    decreases j,
{
    if j > 0 {
        let t = r.drop_first();
        assert forall|i: int| 0 <= i < j - 1 implies !is_ascii_alpha(#[trigger] t[i]) by {
            assert(t[i] == r[i + 1]);
        }
        if j < r.len() {
            assert(t[j - 1] == r[j]);
        }
        lemma_first_alpha(t, j - 1);
        assert(!is_ascii_alpha(r[0]));
    }
}

/// Whether `c` is an ASCII letter.
fn is_alpha_char(c: char) -> (res: bool)
    ensures
        res == is_ascii_alpha(c),
{
    ('a' <= c && c <= 'z') || ('A' <= c && c <= 'Z')
}

/// Reads the unit parts from `chars[from..]`, starting from the state `start`.
fn scan_units(chars: &Vec<char>, from: usize, start: DurationScan) -> (res: Option<DurationScan>)
    requires
        from <= chars@.len(),
    ensures
        res == spec_scan_units(chars@.skip(from as int), start),
{
    let n = chars.len();
    let mut num_start = from;
    let mut st = start;
    while num_start <= n
        invariant
            n == chars@.len(),
            from <= num_start <= n,
            spec_scan_units(chars@.skip(from as int), start) == spec_scan_units(
                chars@.skip(num_start as int),
                st,
            ),
        decreases n - num_start,
    {
        let ghost r = chars@.skip(num_start as int);
        let ghost st0 = st;
        let mut j = num_start;
        while j < n && !is_alpha_char(chars[j])
            invariant
                n == chars@.len(),
                num_start <= j <= n,
                r == chars@.skip(num_start as int),
                forall|i: int| 0 <= i < j - num_start ==> !is_ascii_alpha(#[trigger] r[i]),
            decreases n - j,
        {
            assert(r[j - num_start] == chars@[j as int]);
            j = j + 1;
        }
        proof {
            if j < n {
                assert(r[j - num_start] == chars@[j as int]);
            }
            lemma_first_alpha(r, j - num_start);
        }
        if j == n {
            assert(r.len() == n - num_start);
            assert(first_alpha(r) == r.len());
            if j == num_start {
                return Some(st);
            }
            assert(r =~= chars@.subrange(num_start as int, j as int));
            match parse_integer_in_range(chars.as_slice(), num_start, j, i64::MIN as i128, i64::MAX as i128) {
                Some(_) => {
                    return Some(st);
                },
                None => {
                    return None;
                },
            }
        }
        let unit = chars[j];
        let ghost k = (j - num_start) as int;
        assert(r[k] == unit);
        assert(r.skip(k + 1) =~= chars@.skip(j + 1));
        assert(r.take(k) =~= chars@.subrange(num_start as int, j as int));
        if j == num_start {
            if unit == 'T' {
                st.in_time = true;
                num_start = j + 1;
                assert(st == DurationScan { in_time: true, ..st0 });
                continue;
            }
            return None;
        }
        let value = match parse_integer_in_range(chars.as_slice(), num_start, j, i64::MIN as i128, i64::MAX as i128) {
            Some(v) => v,
            None => {
                return None;
            },
        };
        if unit == 'Y' {
            #[verifier::truncate]
            let years = value as i32;
            st.years = years;
            st.saw_ym = true;
        } else if unit == 'M' && !st.in_time {
            #[verifier::truncate]
            let months = value as i32;
            st.months = months;
            st.saw_ym = true;
        } else if unit == 'D' {
            st.days = value as i64;
            st.saw_dt = true;
        } else if unit == 'T' {
            st.in_time = true;
        } else if unit == 'H' {
            st.hours = value as i64;
            st.saw_dt = true;
        } else if unit == 'M' && st.in_time {
            st.minutes = value as i64;
            st.saw_dt = true;
        } else if unit == 'S' {
            st.seconds = value as i64;
            st.saw_dt = true;
        } else {
            return None;
        }
        num_start = j + 1;
    }
    Some(st)
}

/// Reads an ISO 8601 duration such as `P1Y6M`, `PT45M`, `P2DT3H` or `-P1Y`: years and
/// months give a years-months duration, days and time a days-time one; years or months
/// together with days, hours, minutes or seconds, or a text not of this shape, give `None`. `P` alone is the zero duration.
pub fn parse_duration_iso8601(s: &str) -> (res: Option<DurationValue>)
    ensures
        res == spec_parse_duration(s@),
{
    let chars = chars_of(s);
    let n = chars.len();
    if n == 0 {
        return None;
    }
    let negative = chars[0] == '-';
    let p: usize = if negative {
        1
    } else {
        0
    };
    if p >= n || chars[p] != 'P' {
        return None;
    }
    let scanned = scan_units(&chars, p + 1, DurationScan {
        years: 0,
        months: 0,
        days: 0,
        hours: 0,
        minutes: 0,
        seconds: 0,
        in_time: false,
        saw_ym: false,
        saw_dt: false,
    });
    match scanned {
        None => None,
        Some(st) => {
            if st.saw_ym && st.saw_dt {
                None
            } else if st.saw_ym {
                Some(DurationValue::ym(st.years, st.months, negative))
            } else {
                Some(DurationValue::dt(st.days, st.hours, st.minutes, st.seconds, negative))
            }
        },
    }
}

} // verus!
