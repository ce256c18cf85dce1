use vstd::prelude::*;

use std::cmp::Ordering;
use vstd::std_specs::cmp::PartialOrdSpecImpl;

use crate::duration::{DurationValue, SECONDS_PER_FEBRUARY_NON_LEAP};
use crate::duration_totals::{
    lemma_extreme_fold_error_stays, spec_extreme_durations,
    spec_extreme_upto, spec_same_kind, spec_total_of, DurationTotal,
};
use crate::errors::{is_eval_error, RuntimeError};
use crate::types::{SpecialValueEnum, ValueOrSv};

verus! {

/// The order of two `i128` values.
pub open spec fn order_of_i128(x: i128, y: i128) -> Ordering {
    if x < y {
        Ordering::Less
    } else if x == y {
        Ordering::Equal
    } else {
        Ordering::Greater
    }
}

/// The order of two durations, where one is known: months against months, seconds against
/// seconds, combined durations by months then seconds; a positive number of months is
/// longer than fewer seconds than there are in twenty-eight days.
pub open spec fn duration_order_of(a: DurationValue, b: DurationValue) -> Option<Ordering> {
    match (a, b) {
        (DurationValue::YearsMonths { months: x }, DurationValue::YearsMonths { months: y }) => Some(
            order_of_i128(x, y),
        ),
        (DurationValue::YearsMonths { months: x }, DurationValue::DaysTime { seconds: y }) => {
            if y < SECONDS_PER_FEBRUARY_NON_LEAP && x > 0 {
                Some(Ordering::Greater)
            } else {
                None
            }
        },
        (DurationValue::DaysTime { seconds: x }, DurationValue::YearsMonths { months: y }) => {
            if x < SECONDS_PER_FEBRUARY_NON_LEAP && y > 0 {
                Some(Ordering::Less)
            } else {
                None
            }
        },
        (DurationValue::DaysTime { seconds: x }, DurationValue::DaysTime { seconds: y }) => Some(
            order_of_i128(x, y),
        ),
        (
            DurationValue::Combined { months: am, seconds: asec },
            DurationValue::Combined { months: bm, seconds: bsec },
        ) => if am == bm {
            Some(order_of_i128(asec, bsec))
        } else {
            Some(order_of_i128(am, bm))
        },
        _ => None,
    }
}

/// The order with its two sides swapped.
pub open spec fn reversed_order(o: Option<Ordering>) -> Option<Ordering> {
    match o {
        Some(Ordering::Less) => Some(Ordering::Greater),
        Some(Ordering::Greater) => Some(Ordering::Less),
        other => other,
    }
}

/// The order of two `i128` values.
fn order_i128(x: i128, y: i128) -> (res: Ordering)
    ensures
        res == order_of_i128(x, y),
{
    if x < y {
        Ordering::Less
    } else if x == y {
        Ordering::Equal
    } else {
        Ordering::Greater
    }
}

impl PartialOrd for DurationValue {
    fn partial_cmp(&self, other: &Self) -> (res: Option<Ordering>) {
        match (self, other) {
            (DurationValue::YearsMonths { months: a }, DurationValue::YearsMonths { months: b }) => {
                Some(order_i128(*a, *b))
            },
            (DurationValue::YearsMonths { months: a }, DurationValue::DaysTime { seconds: b }) => {
                if *b < SECONDS_PER_FEBRUARY_NON_LEAP && *a > 0 {
                    Some(Ordering::Greater)
                } else {
                    None
                }
            },
            (DurationValue::DaysTime { seconds: a }, DurationValue::YearsMonths { months: b }) => {
                if *a < SECONDS_PER_FEBRUARY_NON_LEAP && *b > 0 {
                    Some(Ordering::Less)
                } else {
                    None
                }
            },
            (DurationValue::DaysTime { seconds: a }, DurationValue::DaysTime { seconds: b }) => {
                Some(order_i128(*a, *b))
            },
            (
                DurationValue::Combined { months: am, seconds: asec },
                DurationValue::Combined { months: bm, seconds: bsec },
            ) => {
                let by_months = order_i128(*am, *bm);
                match by_months {
                    Ordering::Equal => Some(order_i128(*asec, *bsec)),
                    other => Some(other),
                }
            },
            _ => None,
        }
    }
}

impl PartialOrdSpecImpl for DurationValue {
    open spec fn obeys_partial_cmp_spec() -> bool {
        true
    }

    open spec fn partial_cmp_spec(&self, other: &Self) -> Option<Ordering> {
        duration_order_of(*self, *other)
    }
}

/// Comparing two durations both ways gives opposite answers, and a duration that can be
/// ordered at all is equal to itself.
pub proof fn lemma_duration_order_antisymmetric(a: DurationValue, b: DurationValue)
    ensures
        duration_order_of(a, b) == reversed_order(duration_order_of(b, a)),
        duration_order_of(a, a) == Some(Ordering::Equal),
{
}

/// The order of two totals of the same kind.
pub open spec fn total_order_of(a: DurationTotal, b: DurationTotal) -> Ordering {
    match (a, b) {
        (DurationTotal::YearsMonths(x), DurationTotal::YearsMonths(y)) => order_of_i128(x, y),
        (DurationTotal::DaysTime(x), DurationTotal::DaysTime(y)) => order_of_i128(x, y),
        _ => Ordering::Equal,
    }
}

impl DurationTotal {
    /// The order of two totals of the same kind; totals of different kinds cannot be
    /// compared.
    pub fn compare(&self, other: &Self) -> (res: Result<Ordering, RuntimeError>)
        ensures
            spec_same_kind(*self, *other) ==> res == Ok::<Ordering, RuntimeError>(
                total_order_of(*self, *other),
            ),
            !spec_same_kind(*self, *other) ==> res is Err && is_eval_error(
                res->Err_0,
                "Duration comparison requires values of the same kind"@,
            ),
    {
        match (self, other) {
            (DurationTotal::YearsMonths(left), DurationTotal::YearsMonths(right)) => Ok(
                order_i128(*left, *right),
            ),
            (DurationTotal::DaysTime(left), DurationTotal::DaysTime(right)) => Ok(
                order_i128(*left, *right),
            ),
            _ => Err(
                RuntimeError::eval_error(
                    String::from_str("Duration comparison requires values of the same kind"),
                ),
            ),
        }
    }
}

/// The longest (`want_max`) or shortest duration of `values`, as the `max` and `min`
/// functions give them for durations.
fn extreme_durations(values: &Vec<DurationValue>, want_max: bool) -> (res: Result<
    ValueOrSv<DurationValue, SpecialValueEnum>,
    RuntimeError,
>)
    ensures
        match spec_extreme_durations(values@, want_max) {
            Ok(v) => res == Ok::<ValueOrSv<DurationValue, SpecialValueEnum>, RuntimeError>(v),
            Err(m) => res is Err && is_eval_error(res->Err_0, m),
        },
{
    let mut best_total: Option<DurationTotal> = None;
    let mut best_value: Option<DurationValue> = None;
    let mut i: usize = 0;
    while i < values.len()
        invariant
            i <= values@.len(),
            spec_extreme_upto(values@, i, want_max) == Ok::<Option<DurationValue>, Seq<char>>(
                best_value,
            ),
            best_value is None <==> best_total is None,
            best_value matches Some(v) ==> spec_total_of(v) == best_total,
        decreases values@.len() - i,
    {
        let duration = values[i];
        let ghost prefix = spec_extreme_upto(values@, i, want_max);
        match DurationTotal::from_value(&duration) {
            None => {
                proof {
                    lemma_extreme_fold_error_stays(values@, i + 1, values@.len(), want_max);
                }
                return Err(
                    RuntimeError::eval_error(
                        String::from_str(
                            "Duration lists hold years-months or days-time durations only",
                        ),
                    ),
                );
            },
            Some(total) => {
                match best_total {
                    Some(existing) => {
                        match existing.compare(&total) {
                            Err(e) => {
                                proof {
                                    lemma_extreme_fold_error_stays(
                                        values@,
                                        i + 1,
                                        values@.len(),
                                        want_max,
                                    );
                                }
                                return Err(e);
                            },
                            Ok(ordering) => {
                                let replace = match ordering {
                                    Ordering::Less => want_max,
                                    Ordering::Greater => !want_max,
                                    Ordering::Equal => false,
                                };
                                if replace {
                                    best_total = Some(total);
                                    best_value = Some(duration);
                                }
                            },
                        }
                    },
                    None => {
                        best_total = Some(total);
                        best_value = Some(duration);
                    },
                }
            },
        }
        i = i + 1;
    }
    match best_value {
        Some(duration) => Ok(ValueOrSv::Value(duration)),
        None => Ok(ValueOrSv::Sv(SpecialValueEnum::Missing)),
    }
}

/// The longest of a list of durations of one kind, the earliest among equals; the missing
/// value for an empty list; an error for durations of different kinds or a duration with
/// both months and seconds.
pub fn eval_max_durations(values: &Vec<DurationValue>) -> (res: Result<
    ValueOrSv<DurationValue, SpecialValueEnum>,
    RuntimeError,
>)
    ensures
        match spec_extreme_durations(values@, true) {
            Ok(v) => res == Ok::<ValueOrSv<DurationValue, SpecialValueEnum>, RuntimeError>(v),
            Err(m) => res is Err && is_eval_error(res->Err_0, m),
        },
{
    extreme_durations(values, true)
}

/// The shortest of a list of durations of one kind, the earliest among equals; the missing
/// value for an empty list; an error for durations of different kinds or a duration with
/// both months and seconds.
pub fn eval_min_durations(values: &Vec<DurationValue>) -> (res: Result<
    ValueOrSv<DurationValue, SpecialValueEnum>,
    RuntimeError,
>)
    ensures
        match spec_extreme_durations(values@, false) {
            Ok(v) => res == Ok::<ValueOrSv<DurationValue, SpecialValueEnum>, RuntimeError>(v),
            Err(m) => res is Err && is_eval_error(res->Err_0, m),
        },
{
    extreme_durations(values, false)
}

} // verus!
