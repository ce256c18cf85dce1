use vstd::prelude::*;

use crate::duration::{
    spec_total_months, spec_total_seconds, spec_dt, spec_from_totals, spec_mixed_signs, spec_months, spec_seconds, spec_ym, DurationValue,
    mixed_signs_message,
};
use crate::errors::{is_eval_error, RuntimeError};
use crate::iso_format::abs_int;
use crate::operators::{spec_math_operator_str, MathOperatorEnum};
use crate::text::{push_str_chars, string_from_chars};
use crate::types::{SpecialValueEnum, ValueOrSv};

verus! {

/// A duration reduced to one number: months for years-months durations, seconds for
/// days-time durations.
#[derive(Clone, Copy, Debug, PartialEq, Eq, Structural)]
pub enum DurationTotal {
    YearsMonths(i128),
    DaysTime(i128),
}

/// The number a total holds.
pub open spec fn spec_total_value(t: DurationTotal) -> int {
    match t {
        DurationTotal::YearsMonths(v) => v as int,
        DurationTotal::DaysTime(v) => v as int,
    }
}

/// Whether two totals are of the same kind.
pub open spec fn spec_same_kind(a: DurationTotal, b: DurationTotal) -> bool {
    (a is YearsMonths && b is YearsMonths) || (a is DaysTime && b is DaysTime)
}

/// The total of a duration; a duration with both months and seconds has none.
pub open spec fn spec_total_of(d: DurationValue) -> Option<DurationTotal> {
    match d {
        DurationValue::YearsMonths { months } => Some(DurationTotal::YearsMonths(months)),
        DurationValue::DaysTime { seconds } => Some(DurationTotal::DaysTime(seconds)),
        DurationValue::Combined { .. } => None,
    }
}

/// The error text for a duration with both months and seconds in a list of durations.
pub open spec fn combined_in_list_message() -> Seq<char> {
    "Duration lists hold years-months or days-time durations only"@
}

/// The sum of two totals, or the error text `add_assign` gives.
pub open spec fn spec_add_totals(total: DurationTotal, extra: DurationTotal) -> Result<
    DurationTotal,
    Seq<char>,
> {
    match (total, extra) {
        (DurationTotal::YearsMonths(a), DurationTotal::YearsMonths(b)) => if i128::MIN <= a + b
            <= i128::MAX {
            Ok(DurationTotal::YearsMonths((a + b) as i128))
        } else {
            Err("Duration addition overflowed total months"@)
        },
        (DurationTotal::DaysTime(a), DurationTotal::DaysTime(b)) => if i128::MIN <= a + b
            <= i128::MAX {
            Ok(DurationTotal::DaysTime((a + b) as i128))
        } else {
            Err("Duration addition overflowed total seconds"@)
        },
        _ => Err("Duration addition requires values of the same kind"@),
    }
}

/// The duration a total stands for, or the error text `to_duration_value` gives.
pub open spec fn spec_total_to_duration(t: DurationTotal) -> Result<DurationValue, Seq<char>> {
    match t {
        DurationTotal::YearsMonths(total) => if total == 0 {
            Ok(spec_ym(0, 0, false))
        } else if total == i128::MIN {
            Err("Duration conversion overflowed total months"@)
        } else if abs_int(total as int) / 12 > i32::MAX {
            Err("Duration years exceed supported range"@)
        } else {
            Ok(
                spec_ym(
                    (abs_int(total as int) / 12) as int,
                    (abs_int(total as int) % 12) as int,
                    total < 0,
                ),
            )
        },
        DurationTotal::DaysTime(total) => if total == 0 {
            Ok(spec_dt(0, 0, 0, 0, false))
        } else if total == i128::MIN {
            Err("Duration conversion overflowed total seconds"@)
        } else if abs_int(total as int) / 86400 > i64::MAX {
            Err("Duration days exceed supported range"@)
        } else {
            let a = abs_int(total as int);
            Ok(
                spec_dt(
                    (a / 86400) as int,
                    ((a % 86400) / 3600) as int,
                    ((a % 3600) / 60) as int,
                    (a % 60) as int,
                    total < 0,
                ),
            )
        },
    }
}

/// The running sum of the first `n` durations of `s`, stopping at the first error.
pub open spec fn spec_sum_fold(s: Seq<DurationValue>, n: int) -> Result<
    Option<DurationTotal>,
    Seq<char>,
>
    decreases n,
{
    if n <= 0 {
        Ok(None)
    } else {
        match spec_sum_fold(s, n - 1) {
            Err(m) => Err(m),
            Ok(acc) => match spec_total_of(s[n - 1]) {
                None => Err(combined_in_list_message()),
                Some(part) => match acc {
                    None => Ok(Some(part)),
                    Some(total) => match spec_add_totals(total, part) {
                        Ok(t) => Ok(Some(t)),
                        Err(m) => Err(m),
                    },
                },
            },
        }
    }
}

proof fn lemma_sum_fold_error_stays(s: Seq<DurationValue>, i: int, n: int)
    requires
        0 <= i <= n,
        spec_sum_fold(s, i) is Err,
    ensures
        spec_sum_fold(s, n) == spec_sum_fold(s, i),
    decreases n - i,
{
    if n > i {
        lemma_sum_fold_error_stays(s, i, n - 1);
    }
}

/// The sum of a list of durations as `eval_sum_durations` gives it: the missing value for
/// an empty list, otherwise the sum, or the first error's text.
pub open spec fn spec_sum_durations(s: Seq<DurationValue>) -> Result<
    ValueOrSv<DurationValue, SpecialValueEnum>,
    Seq<char>,
> {
    match spec_sum_fold(s, s.len() as int) {
        Err(m) => Err(m),
        Ok(None) => Ok(ValueOrSv::Sv(SpecialValueEnum::Missing)),
        Ok(Some(t)) => match spec_total_to_duration(t) {
            Ok(d) => Ok(ValueOrSv::Value(d)),
            Err(m) => Err(m),
        },
    }
}

/// The longest (`want_max`) or shortest of the first `n` durations of `s`, the earliest
/// one among equals, stopping at the first error.
pub open spec fn spec_extreme_fold(s: Seq<DurationValue>, n: int, want_max: bool) -> Result<
    Option<DurationValue>,
    Seq<char>,
>
    decreases n,
{
    if n <= 0 {
        Ok(None)
    } else {
        match spec_extreme_fold(s, n - 1, want_max) {
            Err(m) => Err(m),
            Ok(best) => match spec_total_of(s[n - 1]) {
                None => Err(combined_in_list_message()),
                Some(t) => match best {
                    None => Ok(Some(s[n - 1])),
                    Some(b) => {
                        let bt = spec_total_of(b).unwrap();
                        if !spec_same_kind(bt, t) {
                            Err("Duration comparison requires values of the same kind"@)
                        } else if (want_max && spec_total_value(bt) < spec_total_value(t)) || (
                        !want_max && spec_total_value(bt) > spec_total_value(t)) {
                            Ok(Some(s[n - 1]))
                        } else {
                            Ok(Some(b))
                        }
                    },
                },
            },
        }
    }
}

/// `spec_extreme_fold` over the first `i` durations.
pub open spec fn spec_extreme_upto(s: Seq<DurationValue>, i: usize, want_max: bool) -> Result<
    Option<DurationValue>,
    Seq<char>,
> {
    spec_extreme_fold(s, i as int, want_max)
}

/// The longest or shortest duration of a list as `eval_max_durations` and
/// `eval_min_durations` give it: the missing value for an empty list.
pub open spec fn spec_extreme_durations(s: Seq<DurationValue>, want_max: bool) -> Result<
    ValueOrSv<DurationValue, SpecialValueEnum>,
    Seq<char>,
> {
    match spec_extreme_fold(s, s.len() as int, want_max) {
        Err(m) => Err(m),
        Ok(None) => Ok(ValueOrSv::Sv(SpecialValueEnum::Missing)),
        Ok(Some(d)) => Ok(ValueOrSv::Value(d)),
    }
}

pub proof fn lemma_extreme_fold_error_stays(s: Seq<DurationValue>, i: int, n: nat, want_max: bool)
    requires
        0 <= i <= n,
        spec_extreme_fold(s, i, want_max) is Err,
    ensures
        spec_extreme_fold(s, n as int, want_max) == spec_extreme_fold(s, i, want_max),
    decreases n - i,
{
    if n > i {
        lemma_extreme_fold_error_stays(s, i, (n - 1) as nat, want_max);
    }
}

/// The longest duration a list gives is one of its durations, and no duration of the list
/// is longer (the shortest likewise is in the list and no duration is shorter).
pub proof fn lemma_extreme_is_bound(s: Seq<DurationValue>, n: int, want_max: bool)
    requires
        0 <= n <= s.len(),
    ensures
        spec_extreme_fold(s, n, want_max) matches Ok(Some(m)) ==> {
            &&& exists|i: int| 0 <= i < n && s[i] == m
            &&& spec_total_of(m) is Some
            &&& forall|j: int|
                0 <= j < n ==> {
                    &&& spec_total_of(#[trigger] s[j]) is Some
                    &&& spec_same_kind(spec_total_of(s[j]).unwrap(), spec_total_of(m).unwrap())
                    &&& want_max ==> spec_total_value(spec_total_of(s[j]).unwrap())
                        <= spec_total_value(spec_total_of(m).unwrap())
                    &&& !want_max ==> spec_total_value(spec_total_of(s[j]).unwrap())
                        >= spec_total_value(spec_total_of(m).unwrap())
                }
        },
    decreases n,
{
    if n > 0 {
        lemma_extreme_is_bound(s, n - 1, want_max);
        if let Ok(Some(m)) = spec_extreme_fold(s, n, want_max) {
            if let Ok(Some(b)) = spec_extreme_fold(s, n - 1, want_max) {
                let i = choose|i: int| 0 <= i < n - 1 && s[i] == b;
                if m == b {
                    assert(s[i] == m);
                } else {
                    assert(s[n - 1] == m);
                }
            } else {
                assert(s[n - 1] == m);
            }
        }
    }
}

/// Whether a duration is written in its one canonical form: a years-months duration with
/// months, a days-time duration, or a combined one with both parts of one sign.
pub open spec fn spec_is_normalized(d: DurationValue) -> bool {
    match d {
        DurationValue::YearsMonths { months } => months != 0,
        DurationValue::DaysTime { .. } => true,
        DurationValue::Combined { months, seconds } => months != 0 && seconds != 0
            && !spec_mixed_signs(months as int, seconds as int),
    }
}

/// Rebuilding a duration in canonical form from its month and second parts gives it back,
/// so adding the zero duration to it changes nothing.
pub proof fn lemma_components_rebuild(d: DurationValue)
    requires
        spec_is_normalized(d),
    ensures
        !spec_mixed_signs(spec_months(d), spec_seconds(d)),
        spec_from_totals(spec_months(d), spec_seconds(d)) == d,
        spec_from_totals(spec_months(d) + 0, spec_seconds(d) + 0) == d,
{
}

/// Adding two durations gives the same result in either order.
pub proof fn lemma_duration_addition_commutes(a: DurationValue, b: DurationValue)
    ensures
        spec_mixed_signs(spec_months(a) + spec_months(b), spec_seconds(a) + spec_seconds(b))
            == spec_mixed_signs(spec_months(b) + spec_months(a), spec_seconds(b) + spec_seconds(a)),
        spec_from_totals(spec_months(a) + spec_months(b), spec_seconds(a) + spec_seconds(b))
            == spec_from_totals(spec_months(b) + spec_months(a), spec_seconds(b) + spec_seconds(a)),
{
}

/// Subtracting a duration from itself gives the zero days-time duration.
pub proof fn lemma_duration_minus_itself(d: DurationValue)
    ensures
        !spec_mixed_signs(spec_months(d) - spec_months(d), spec_seconds(d) - spec_seconds(d)),
        spec_from_totals(spec_months(d) - spec_months(d), spec_seconds(d) - spec_seconds(d))
            == (DurationValue::DaysTime { seconds: 0 }),
{
}

/// Summing a list that holds one duration gives that duration, as long as its year or day
/// count fits the supported range.
pub proof fn lemma_single_duration_sum(d: DurationValue)
    requires
        (d is YearsMonths && i128::MIN < spec_months(d) && abs_int(spec_months(d)) / 12
            <= i32::MAX) || (d is DaysTime && i128::MIN < spec_seconds(d) && abs_int(
            spec_seconds(d),
        ) / 86400 <= i64::MAX),
    ensures
        spec_sum_durations(seq![d]) == Ok::<ValueOrSv<DurationValue, SpecialValueEnum>, Seq<char>>(
            ValueOrSv::Value(d),
        ),
{
    let s = seq![d];
    assert(spec_sum_fold(s, 0) == Ok::<Option<DurationTotal>, Seq<char>>(None));
    assert(spec_sum_fold(s, 1) == Ok::<Option<DurationTotal>, Seq<char>>(spec_total_of(d)));
    match d {
        DurationValue::YearsMonths { months } => {
            let a = abs_int(months as int);
            assert(spec_total_months((a / 12) as int, (a % 12) as int) == a);
        },
        DurationValue::DaysTime { seconds } => {
            let a = abs_int(seconds as int);
            let r = a % 86400;
            assert(a == (a / 86400) * 86400 + r);
            assert(r == (r / 3600) * 3600 + r % 3600);
            assert(r % 3600 == a % 3600) by (nonlinear_arith)
                requires
                    a >= 0,
                    r == a % 86400,
            {
                vstd::arithmetic::div_mod::lemma_mod_mod(a as int, 3600, 24);
            }
            assert(a % 3600 == ((a % 3600) / 60) * 60 + (a % 3600) % 60);
            assert((a % 3600) % 60 == a % 60) by (nonlinear_arith)
                requires
                    a >= 0,
            {
                vstd::arithmetic::div_mod::lemma_mod_mod(a as int, 60, 60);
            }
            assert(spec_total_seconds(
                (a / 86400) as int,
                (r / 3600) as int,
                ((a % 3600) / 60) as int,
                (a % 60) as int,
            ) == a);
        },
        DurationValue::Combined { .. } => {},
    }
}

/// An evaluation error with the text `message`.
fn eval_error_str(message: &str) -> (res: RuntimeError)
    ensures
        is_eval_error(res, message@),
{
    RuntimeError::eval_error(String::from_str(message))
}

impl DurationTotal {
    /// The total of a duration; `None` for a duration with both months and seconds.
    pub fn from_value(value: &DurationValue) -> (res: Option<DurationTotal>)
        ensures
            res == spec_total_of(*value),
    {
        match value {
            DurationValue::YearsMonths { months } => Some(DurationTotal::YearsMonths(*months)),
            DurationValue::DaysTime { seconds } => Some(DurationTotal::DaysTime(*seconds)),
            DurationValue::Combined { .. } => None,
        }
    }

    /// Adds `other` to the total; fails on totals of different kinds and on overflow,
    /// leaving the total as it was.
    pub fn add_assign(&mut self, other: &Self) -> (res: Result<(), RuntimeError>)
        ensures
            match spec_add_totals(*old(self), *other) {
                Ok(t) => res is Ok && *final(self) == t,
                Err(m) => res is Err && is_eval_error(res->Err_0, m) && *final(self) == *old(
                    self,
                ),
            },
    {
        match (*self, *other) {
            (DurationTotal::YearsMonths(total), DurationTotal::YearsMonths(extra)) => {
                match total.checked_add(extra) {
                    Some(sum) => {
                        *self = DurationTotal::YearsMonths(sum);
                        Ok(())
                    },
                    None => Err(eval_error_str("Duration addition overflowed total months")),
                }
            },
            (DurationTotal::DaysTime(total), DurationTotal::DaysTime(extra)) => {
                match total.checked_add(extra) {
                    Some(sum) => {
                        *self = DurationTotal::DaysTime(sum);
                        Ok(())
                    },
                    None => Err(eval_error_str("Duration addition overflowed total seconds")),
                }
            },
            _ => Err(eval_error_str("Duration addition requires values of the same kind")),
        }
    }

    /// The duration the total stands for: years and months, or days and time.
    pub fn to_duration_value(self) -> (res: Result<DurationValue, RuntimeError>)
        ensures
            match spec_total_to_duration(self) {
                Ok(d) => res == Ok::<DurationValue, RuntimeError>(d),
                Err(m) => res is Err && is_eval_error(res->Err_0, m),
            },
    {
        match self {
            DurationTotal::YearsMonths(total_months) => {
                if total_months == 0 {
                    return Ok(DurationValue::ym(0, 0, false));
                }
                let negative = total_months < 0;
                let absolute = if negative {
                    if total_months == i128::MIN {
                        return Err(eval_error_str("Duration conversion overflowed total months"));
                    }
                    -total_months
                } else {
                    total_months
                };
                let years_total = absolute / 12;
                if years_total > i32::MAX as i128 {
                    return Err(eval_error_str("Duration years exceed supported range"));
                }
                let years = years_total as i32;
                let months = (absolute % 12) as i32;
                Ok(DurationValue::ym(years, months, negative))
            },
            DurationTotal::DaysTime(total_seconds) => {
                if total_seconds == 0 {
                    return Ok(DurationValue::dt(0, 0, 0, 0, false));
                }
                let negative = total_seconds < 0;
                let absolute = if negative {
                    if total_seconds == i128::MIN {
                        return Err(eval_error_str("Duration conversion overflowed total seconds"));
                    }
                    -total_seconds
                } else {
                    total_seconds
                };
                let days_total = absolute / 86400;
                if days_total > i64::MAX as i128 {
                    return Err(eval_error_str("Duration days exceed supported range"));
                }
                let days = days_total as i64;
                let rem = absolute % 86400;
                let hours = (rem / 3600) as i64;
                let rem2 = rem % 3600;
                let minutes = (rem2 / 60) as i64;
                let seconds = (rem2 % 60) as i64;
                proof {
                    let a = absolute as int;
                    assert((a % 86400) % 3600 == a % 3600) by (nonlinear_arith)
                        requires
                            a >= 0,
                    {
                        vstd::arithmetic::div_mod::lemma_mod_mod(a, 3600, 24);
                    }
                    assert((a % 3600) % 60 == a % 60) by (nonlinear_arith)
                        requires
                            a >= 0,
                    {
                        vstd::arithmetic::div_mod::lemma_mod_mod(a, 60, 60);
                    }
                }
                Ok(DurationValue::dt(days, hours, minutes, seconds, negative))
            },
        }
    }
}

/// Sums a list of durations of one kind: the missing value for an empty list; an error
/// for durations of different kinds, for a duration with both months and seconds, and
/// when a running total or the result leaves the supported range.
pub fn eval_sum_durations(values: &Vec<DurationValue>) -> (res: Result<
    ValueOrSv<DurationValue, SpecialValueEnum>,
    RuntimeError,
>)
    ensures
        match spec_sum_durations(values@) {
            Ok(v) => res == Ok::<ValueOrSv<DurationValue, SpecialValueEnum>, RuntimeError>(v),
            Err(m) => res is Err && is_eval_error(res->Err_0, m),
        },
{
    let mut acc: Option<DurationTotal> = None;
    let mut i: usize = 0;
    while i < values.len()
        invariant
            i <= values@.len(),
            spec_sum_fold(values@, i as int) == Ok::<Option<DurationTotal>, Seq<char>>(acc),
        decreases values@.len() - i,
    {
        let duration = values[i];
        let ghost before = acc;
        match DurationTotal::from_value(&duration) {
            None => {
                proof {
                    assert(spec_sum_fold(values@, i + 1) == Err::<Option<DurationTotal>, Seq<char>>(
                        combined_in_list_message(),
                    ));
                    lemma_sum_fold_error_stays(values@, i + 1, values@.len() as int);
                }
                return Err(
                    eval_error_str("Duration lists hold years-months or days-time durations only"),
                );
            },
            Some(part) => {
                match acc {
                    None => {
                        acc = Some(part);
                    },
                    Some(total) => {
                        let mut t = total;
                        match t.add_assign(&part) {
                            Ok(()) => {
                                acc = Some(t);
                            },
                            Err(e) => {
                                proof {
                                    let m = spec_add_totals(total, part)->Err_0;
                                    assert(spec_sum_fold(values@, i + 1) == Err::<
                                        Option<DurationTotal>,
                                        Seq<char>,
                                    >(m));
                                    lemma_sum_fold_error_stays(
                                        values@,
                                        i + 1,
                                        values@.len() as int,
                                    );
                                }
                                return Err(e);
                            },
                        }
                    },
                }
            },
        }
        assert(spec_sum_fold(values@, i + 1) == Ok::<Option<DurationTotal>, Seq<char>>(acc));
        i = i + 1;
    }
    match acc {
        None => Ok(ValueOrSv::Sv(SpecialValueEnum::Missing)),
        Some(total) => match total.to_duration_value() {
            Ok(d) => Ok(ValueOrSv::Value(d)),
            Err(e) => Err(e),
        },
    }
}

/// Adds or subtracts two durations part by part; other operators are refused, and so is
/// a result whose month and second parts have opposite signs.
pub fn operate_duration_values(
    operator: &MathOperatorEnum,
    left: &DurationValue,
    right: &DurationValue,
) -> (res: Result<DurationValue, RuntimeError>)
    requires
        *operator is Addition ==> i128::MIN <= spec_months(*left) + spec_months(*right)
            <= i128::MAX && i128::MIN <= spec_seconds(*left) + spec_seconds(*right) <= i128::MAX,
        *operator is Subtraction ==> i128::MIN <= spec_months(*left) - spec_months(*right)
            <= i128::MAX && i128::MIN <= spec_seconds(*left) - spec_seconds(*right) <= i128::MAX,
    ensures
        !(*operator is Addition || *operator is Subtraction) ==> res is Err && is_eval_error(
            res->Err_0,
            "Unsupported operator '"@ + spec_math_operator_str(*operator)
                + "' for duration values"@,
        ),
        (*operator is Addition || *operator is Subtraction) ==> ({
            let months = if *operator is Addition {
                spec_months(*left) + spec_months(*right)
            } else {
                spec_months(*left) - spec_months(*right)
            };
            let seconds = if *operator is Addition {
                spec_seconds(*left) + spec_seconds(*right)
            } else {
                spec_seconds(*left) - spec_seconds(*right)
            };
            &&& spec_mixed_signs(months, seconds) <==> res is Err
            &&& res matches Ok(d) ==> d == spec_from_totals(months, seconds)
            &&& res matches Err(e) ==> is_eval_error(e, mixed_signs_message())
        }),
{
    match operator {
        MathOperatorEnum::Addition | MathOperatorEnum::Subtraction => {},
        other => {
            let mut text: Vec<char> = Vec::new();
            push_str_chars(&mut text, "Unsupported operator '");
            push_str_chars(&mut text, other.as_str());
            push_str_chars(&mut text, "' for duration values");
            return Err(RuntimeError::eval_error(string_from_chars(text.as_slice())));
        },
    }
    let (left_months, left_seconds) = left.components();
    let (right_months, right_seconds) = right.components();
    let (months_total, seconds_total) = if matches!(operator, MathOperatorEnum::Addition) {
        (left_months + right_months, left_seconds + right_seconds)
    } else {
        (left_months - right_months, left_seconds - right_seconds)
    };
    DurationValue::from_components(months_total, seconds_total)
}

} // verus!
