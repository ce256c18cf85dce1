use vstd::prelude::*;

verus! {

/// A year of the proleptic Gregorian calendar is a leap year when it is divisible by 4
/// but not by 100, or when it is divisible by 400.
pub open spec fn spec_is_leap_year(year: int) -> bool {
    (year % 4 == 0 && year % 100 != 0) || year % 400 == 0
}

/// Number of days in `month` of `year`; months outside 1..=12 count as 30 days.
pub open spec fn spec_last_day_of_month(year: int, month: int) -> int {
    if month == 1 || month == 3 || month == 5 || month == 7 || month == 8 || month == 10
        || month == 12 {
        31
    } else if month == 4 || month == 6 || month == 9 || month == 11 {
        30
    } else if month == 2 {
        if spec_is_leap_year(year) {
            29
        } else {
            28
        }
    } else {
        30
    }
}

proof fn lemma_divisible_negation(a: int, d: int)
    requires
        d > 0,
    ensures
        (a % d == 0) <==> ((-a) % d == 0),
{
    vstd::arithmetic::div_mod::lemma_fundamental_div_mod(a, d);
    vstd::arithmetic::div_mod::lemma_fundamental_div_mod(-a, d);
    if a % d == 0 {
        let q = a / d;
        assert(-a == d * (-q)) by (nonlinear_arith)
            requires
                a == d * q,
        ;
        vstd::arithmetic::div_mod::lemma_mod_multiples_basic(-q, d);
        assert((d * (-q)) == (-q) * d) by (nonlinear_arith);
    }
    if (-a) % d == 0 {
        let q = (-a) / d;
        assert(a == d * (-q)) by (nonlinear_arith)
            requires
                -a == d * q,
        ;
        vstd::arithmetic::div_mod::lemma_mod_multiples_basic(-q, d);
        assert((d * (-q)) == (-q) * d) by (nonlinear_arith);
    }
}

/// Whether `value` is a multiple of `divisor`.
fn is_multiple_of(value: i32, divisor: i32) -> (res: bool)
    requires
        divisor > 0,
    ensures
        res == (value as int % divisor as int == 0),
{
    let magnitude: i64 = if value < 0 {
        -(value as i64)
    } else {
        value as i64
    };
    proof {
        lemma_divisible_negation(value as int, divisor as int);
    }
    magnitude % (divisor as i64) == 0
}

/// Whether `year` is a leap year.
pub fn is_leap_year(year: i32) -> (res: bool)
    ensures
        res == spec_is_leap_year(year as int),
{
    (is_multiple_of(year, 4) && !is_multiple_of(year, 100)) || is_multiple_of(year, 400)
}

/// The last day (the number of days) of `month` in `year`.
pub fn last_day_of_month(year: i32, month: u8) -> (res: u8)
    ensures
        res as int == spec_last_day_of_month(year as int, month as int),
{
    match month {
        1 | 3 | 5 | 7 | 8 | 10 | 12 => 31,
        4 | 6 | 9 | 11 => 30,
        2 => {
            if is_leap_year(year) {
                29
            } else {
                28
            }
        },
        _ => 30,
    }
}

} // verus!
