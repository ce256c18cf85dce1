use vstd::prelude::*;

use crate::decimal::decimal_digits;
use crate::duration::{spec_months, spec_seconds, DurationValue};
use crate::duration_totals::operate_duration_values;
use crate::errors::{is_eval_error, LinkingError, RuntimeError};
use crate::fields::{
    is_field_not_found, select_date_field, select_datetime_field, select_time_field,
    spec_date_field, spec_datetime_field, spec_time_field, TemporalField,
};
use crate::filters::{filter_positions, lemma_filter_keeps_exactly, spec_filter_positions, ConditionOutcome};
use crate::iso_format::{spec_abs_representable, spec_iso_string};
use crate::numbers::{
    add_numbers, compare_exact_numbers, mul_numbers, numbers_compare, pow_numbers, rem_numbers,
    spec_add, spec_int_operands, spec_mul, spec_negate_fits, spec_number_code, spec_power,
    spec_power_message, spec_rem, spec_special_rule, spec_sub, sub_numbers, ExactNumber,
};
use crate::operator_types::spec_math_link;
use crate::operators::{spec_comparator_str, spec_math_operator_str, ComparatorEnum, MathOperatorEnum};
use crate::temporal::{
    apply_duration_to_date, apply_duration_to_datetime, apply_duration_to_time,
    compare_chronological, date_difference, date_minus_datetime, datetime_difference,
    datetime_minus_date, merge_date_with_datetime, spec_chrono_compare, spec_clock_time_of,
    spec_date_duration_fits, spec_date_moved, spec_datetime_duration_fits, spec_datetime_moved,
    spec_instant, spec_julian_day, spec_month_offset_fits, spec_negatable, spec_signed_parts,
    time_difference, CalendarDate, CalendarDateTime, ClockTime,
};
use crate::text::{chars_equal_str, chars_of, push_chars, push_str_chars, string_from_chars};
use crate::types::{clone_type, spec_special_value_name, spec_type_string, SpecialValueEnum, StringEnum, ValueOrSv, ValueType};
use crate::value_ops::{
    compare_booleans, concat_string_values, spec_string_value_text, compare_string_values, spec_bool_display, spec_string_value_display,
    spec_string_values_equal,
};

verus! {

broadcast use vstd::std_specs::vec::axiom_vec_index_decreases;

/// A list value: a list with no items and no item type yet, or items of one type.
#[derive(Debug, PartialEq)]
pub enum ArrayValue {
    EmptyUntyped,
    PrimitivesArray { values: Vec<ValueEnum>, item_type: ValueType },
}

/// A value of the language: a number, a boolean, a string, a date, a time of day, a date
/// with a time, a duration (each of the last four possibly a special value), or a list.
#[derive(Debug, PartialEq)]
pub enum ValueEnum {
    NumberValue(ExactNumber),
    BooleanValue(bool),
    StringValue(StringEnum),
    DateValue(ValueOrSv<CalendarDate, SpecialValueEnum>),
    TimeValue(ValueOrSv<ClockTime, SpecialValueEnum>),
    DateTimeValue(ValueOrSv<CalendarDateTime, SpecialValueEnum>),
    DurationValue(ValueOrSv<DurationValue, SpecialValueEnum>),
    Array(ArrayValue),
}

/// The decimal digits of `n`, with zeros in front up to `width` digits.
pub open spec fn spec_zero_padded(n: nat, width: nat) -> Seq<char> {
    let digits = decimal_digits(n);
    if digits.len() < width {
        Seq::new((width - digits.len()) as nat, |i: int| '0') + digits
    } else {
        digits
    }
}

/// How the `time` crate shows the date `year`-`month`-`day` (its `Display`): a minus sign
/// for a year before year 0, the year in at least four digits, and the month and the day in
/// two digits each, separated by `-`.
pub open spec fn time_date_display(year: i32, month: u8, day: u8) -> Seq<char> {
    let sign = if year < 0 {
        "-"@
    } else {
        Seq::empty()
    };
    let y: int = if year < 0 {
        -year
    } else {
        year as int
    };
    sign + spec_zero_padded(y as nat, 4) + "-"@ + spec_zero_padded(month as nat, 2) + "-"@
        + spec_zero_padded(day as nat, 2)
}

/// How the `time` crate shows the time of day `hour`:`minute`:`second` (its `Display`): the
/// hour as it is, the minute and the second in two digits each, separated by `:`, and the
/// fraction of the second, `.0` for a whole second.
pub open spec fn time_time_display(hour: u8, minute: u8, second: u8) -> Seq<char> {
    decimal_digits(hour as nat) + ":"@ + spec_zero_padded(minute as nat, 2) + ":"@
        + spec_zero_padded(second as nat, 2) + ".0"@
}

/// How the `time` crate shows a date with a time of day (its `Display`): the date, a space
/// and the time.
pub open spec fn time_datetime_display(
    year: i32,
    month: u8,
    day: u8,
    hour: u8,
    minute: u8,
    second: u8,
) -> Seq<char> {
    time_date_display(year, month, day) + " "@ + time_time_display(hour, minute, second)
}

/// `Display` of `time::Date` on the date `d`; the `time` crate writes the sign, the padded
/// year, month and day as `time_date_display` says.
#[verifier::external_body]
fn date_display(d: CalendarDate) -> (res: String)
    requires
        d.wf(),
    ensures
        res@ == time_date_display(d.year, d.month, d.day),
{
    let month = time::Month::try_from(d.month).unwrap();
    format!("{}", time::Date::from_calendar_date(d.year, month, d.day).unwrap())
}

/// `Display` of `time::Time` on the time of day `t`; with no fraction of a second, the `time`
/// crate writes it as `time_time_display` says.
#[verifier::external_body]
fn time_display(t: ClockTime) -> (res: String)
    requires
        t.wf(),
    ensures
        res@ == time_time_display(t.hour, t.minute, t.second),
{
    format!("{}", time::Time::from_hms(t.hour, t.minute, t.second).unwrap())
}

/// `Display` of `time::PrimitiveDateTime` on `dt`: the date, a space and the time, as
/// `time_datetime_display` says.
#[verifier::external_body]
fn datetime_display(dt: CalendarDateTime) -> (res: String)
    requires
        dt.wf(),
    ensures
        res@ == time_datetime_display(
            dt.date.year,
            dt.date.month,
            dt.date.day,
            dt.time.hour,
            dt.time.minute,
            dt.time.second,
        ),
{
    let month = time::Month::try_from(dt.date.month).unwrap();
    let date = time::Date::from_calendar_date(dt.date.year, month, dt.date.day).unwrap();
    let clock = time::Time::from_hms(dt.time.hour, dt.time.minute, dt.time.second).unwrap();
    format!("{}", time::PrimitiveDateTime::new(date, clock))
}

/// The type of a value; a list with no item type yet has a list type of undefined items.
pub open spec fn spec_value_type(v: ValueEnum) -> ValueType {
    match v {
        ValueEnum::NumberValue(_) => ValueType::NumberType,
        ValueEnum::BooleanValue(_) => ValueType::BooleanType,
        ValueEnum::StringValue(_) => ValueType::StringType,
        ValueEnum::DateValue(_) => ValueType::DateType,
        ValueEnum::TimeValue(_) => ValueType::TimeType,
        ValueEnum::DateTimeValue(_) => ValueType::DateTimeType,
        ValueEnum::DurationValue(_) => ValueType::DurationType,
        ValueEnum::Array(ArrayValue::EmptyUntyped) => ValueType::ListType(
            Box::new(ValueType::UndefinedType),
        ),
        ValueEnum::Array(ArrayValue::PrimitivesArray { item_type, .. }) => ValueType::ListType(
            Box::new(item_type),
        ),
    }
}

/// Each value held is one that exists: dates, times and dates with times that are well
/// formed, durations whose parts can be shown, and lists of such values.
pub open spec fn spec_value_wf(v: ValueEnum) -> bool
    decreases v, 0nat,
{
    match v {
        ValueEnum::DateValue(ValueOrSv::Value(d)) => d.wf(),
        ValueEnum::TimeValue(ValueOrSv::Value(t)) => t.wf(),
        ValueEnum::DateTimeValue(ValueOrSv::Value(dt)) => dt.wf(),
        ValueEnum::DurationValue(ValueOrSv::Value(d)) => spec_abs_representable(d),
        ValueEnum::Array(ArrayValue::PrimitivesArray { values, .. }) => spec_items_wf(
            values,
            values.len() as nat,
        ),
        _ => true,
    }
}

/// The first `n` of `items` are well formed.
pub open spec fn spec_items_wf(items: Vec<ValueEnum>, n: nat) -> bool
    decreases items, n,
{
    if n == 0 || n > items.len() {
        n == 0
    } else {
        spec_items_wf(items, (n - 1) as nat) && spec_value_wf(items[n - 1])
    }
}

/// How a value is shown: numbers, strings and booleans as in code, dates and times as the
/// `time` crate shows them, durations in ISO 8601 notation, special values by their name,
/// and lists as their items between brackets, separated by a comma and a space.
pub open spec fn spec_value_display(v: ValueEnum) -> Seq<char>
    decreases v, 0nat,
{
    match v {
        ValueEnum::NumberValue(n) => spec_number_code(n),
        ValueEnum::BooleanValue(b) => spec_bool_display(b),
        ValueEnum::StringValue(s) => spec_string_value_display(s),
        ValueEnum::DateValue(ValueOrSv::Value(d)) => time_date_display(d.year, d.month, d.day),
        ValueEnum::TimeValue(ValueOrSv::Value(t)) => time_time_display(t.hour, t.minute, t.second),
        ValueEnum::DateTimeValue(ValueOrSv::Value(dt)) => time_datetime_display(
            dt.date.year,
            dt.date.month,
            dt.date.day,
            dt.time.hour,
            dt.time.minute,
            dt.time.second,
        ),
        ValueEnum::DurationValue(ValueOrSv::Value(d)) => spec_iso_string(d),
        ValueEnum::DateValue(ValueOrSv::Sv(sv)) => spec_special_value_name(sv),
        ValueEnum::TimeValue(ValueOrSv::Sv(sv)) => spec_special_value_name(sv),
        ValueEnum::DateTimeValue(ValueOrSv::Sv(sv)) => spec_special_value_name(sv),
        ValueEnum::DurationValue(ValueOrSv::Sv(sv)) => spec_special_value_name(sv),
        ValueEnum::Array(ArrayValue::EmptyUntyped) => "[]"@,
        ValueEnum::Array(ArrayValue::PrimitivesArray { values, .. }) => "["@ + spec_items_display(
            values,
            values.len() as nat,
        ) + "]"@,
    }
}

/// The first `n` of `items` shown, separated by a comma and a space.
pub open spec fn spec_items_display(items: Vec<ValueEnum>, n: nat) -> Seq<char>
    decreases items, n,
{
    if n == 0 || n > items.len() {
        Seq::empty()
    } else if n == 1 {
        spec_value_display(items[0])
    } else {
        spec_items_display(items, (n - 1) as nat) + ", "@ + spec_value_display(items[n - 1])
    }
}

/// Appends how `v` is shown.
fn push_value_display(out: &mut Vec<char>, v: &ValueEnum)
    requires
        spec_value_wf(*v),
    ensures
        final(out)@ == old(out)@ + spec_value_display(*v),
    decreases v,
{
    match v {
        ValueEnum::NumberValue(n) => {
            let code = n.to_code();
            push_str_chars(out, code.as_str());
        },
        ValueEnum::BooleanValue(b) => {
            push_str_chars(out, if *b { "true" } else { "false" });
        },
        ValueEnum::StringValue(s) => {
            let shown = s.to_display();
            push_str_chars(out, shown.as_str());
        },
        ValueEnum::DateValue(ValueOrSv::Value(d)) => {
            let shown = date_display(*d);
            push_str_chars(out, shown.as_str());
        },
        ValueEnum::TimeValue(ValueOrSv::Value(t)) => {
            let shown = time_display(*t);
            push_str_chars(out, shown.as_str());
        },
        ValueEnum::DateTimeValue(ValueOrSv::Value(dt)) => {
            let shown = datetime_display(*dt);
            push_str_chars(out, shown.as_str());
        },
        ValueEnum::DurationValue(ValueOrSv::Value(d)) => {
            let shown = d.to_iso_string();
            push_str_chars(out, shown.as_str());
        },
        ValueEnum::DateValue(ValueOrSv::Sv(sv)) => push_str_chars(out, sv.as_str()),
        ValueEnum::TimeValue(ValueOrSv::Sv(sv)) => push_str_chars(out, sv.as_str()),
        ValueEnum::DateTimeValue(ValueOrSv::Sv(sv)) => push_str_chars(out, sv.as_str()),
        ValueEnum::DurationValue(ValueOrSv::Sv(sv)) => push_str_chars(out, sv.as_str()),
        ValueEnum::Array(ArrayValue::EmptyUntyped) => push_str_chars(out, "[]"),
        ValueEnum::Array(ArrayValue::PrimitivesArray { values, item_type }) => {
            push_str_chars(out, "[");
            let ghost start = out@;
            let mut i: usize = 0;
            while i < values.len()
                invariant
                    i <= values.len(),
                    *v == ValueEnum::Array(
                        ArrayValue::PrimitivesArray { values: *values, item_type: *item_type },
                    ),
                    spec_items_wf(*values, values.len() as nat),
                    out@ == start + spec_items_display(*values, i as nat),
                decreases values.len() - i,
            {
                proof {
                    lemma_items_wf_prefix(*values, values.len() as nat, (i + 1) as nat);
                }
                if i > 0 {
                    push_str_chars(out, ", ");
                }
                proof {
                    let a = v->Array_0;
                    assert(decreases_to!(*v => a));
                    assert(decreases_to!(a => a->values));
                    assert(decreases_to!(*values => values[i as int]));
                }
                push_value_display(out, &values[i]);
                proof {
                    if i == 0 {
                        assert(out@ =~= start + spec_items_display(*values, 1));
                    } else {
                        assert(out@ =~= start + spec_items_display(*values, (i + 1) as nat));
                    }
                }
                i = i + 1;
            }
            push_str_chars(out, "]");
            assert(out@ =~= old(out)@ + spec_value_display(*v));
        },
    }
}

/// Items that are well formed up to `n` are well formed up to any `k <= n`, and item `k - 1`
/// among them is well formed.
proof fn lemma_items_wf_prefix(items: Vec<ValueEnum>, n: nat, k: nat)
    requires
        spec_items_wf(items, n),
        n <= items.len(),
        1 <= k <= n,
    ensures
        spec_items_wf(items, (k - 1) as nat),
        spec_value_wf(items[k - 1]),
    decreases n,
{
    if k < n {
        lemma_items_wf_prefix(items, (n - 1) as nat, k);
    }
}

impl ValueEnum {
    /// How the value is shown.
    pub fn to_display(&self) -> (res: String)
        requires
            spec_value_wf(*self),
        ensures
            res@ == spec_value_display(*self),
    {
        let mut out: Vec<char> = Vec::new();
        push_value_display(&mut out, self);
        assert(out@ =~= spec_value_display(*self));
        string_from_chars(out.as_slice())
    }
}

/// The message for two values that a comparator cannot compare.
pub open spec fn spec_compare_message(left: ValueEnum, comparator: ComparatorEnum, right: ValueEnum) -> Seq<
    char,
> {
    "Not possible to compare "@ + spec_value_display(left) + " "@ + spec_comparator_str(
        comparator,
    ) + " "@ + spec_value_display(right)
}

/// What `left comparator right` gives: numbers compare by every comparator, booleans and
/// strings by `=` and `<>` alone, and dates, times and dates with times that are not
/// special values by every comparator, along the time line; any other pair is an error
/// naming both values.
pub open spec fn spec_compare(comparator: ComparatorEnum, left: ValueEnum, right: ValueEnum) -> Result<
    bool,
    Seq<char>,
> {
    let equality = comparator is Equals || comparator is NotEquals;
    match (left, right) {
        (ValueEnum::NumberValue(a), ValueEnum::NumberValue(b)) => Ok(
            numbers_compare(a, comparator, b),
        ),
        (ValueEnum::BooleanValue(a), ValueEnum::BooleanValue(b)) if equality => Ok(
            if comparator is Equals {
                a == b
            } else {
                a != b
            },
        ),
        (ValueEnum::StringValue(a), ValueEnum::StringValue(b)) if equality => Ok(
            if comparator is Equals {
                spec_string_values_equal(a, b)
            } else {
                !spec_string_values_equal(a, b)
            },
        ),
        (
            ValueEnum::DateValue(ValueOrSv::Value(a)),
            ValueEnum::DateValue(ValueOrSv::Value(b)),
        ) => Ok(spec_chrono_compare(a, comparator, b)),
        (
            ValueEnum::TimeValue(ValueOrSv::Value(a)),
            ValueEnum::TimeValue(ValueOrSv::Value(b)),
        ) => Ok(spec_chrono_compare(a, comparator, b)),
        (
            ValueEnum::DateTimeValue(ValueOrSv::Value(a)),
            ValueEnum::DateTimeValue(ValueOrSv::Value(b)),
        ) => Ok(spec_chrono_compare(a, comparator, b)),
        _ => Err(spec_compare_message(left, comparator, right)),
    }
}

/// The error for two values that a comparator cannot compare.
fn compare_error(left: &ValueEnum, comparator: ComparatorEnum, right: &ValueEnum) -> (res:
    RuntimeError)
    requires
        spec_value_wf(*left),
        spec_value_wf(*right),
    ensures
        is_eval_error(res, spec_compare_message(*left, comparator, *right)),
{
    let mut out: Vec<char> = Vec::new();
    push_str_chars(&mut out, "Not possible to compare ");
    push_value_display(&mut out, left);
    push_str_chars(&mut out, " ");
    push_str_chars(&mut out, comparator.as_str());
    push_str_chars(&mut out, " ");
    push_value_display(&mut out, right);
    assert(out@ =~= spec_compare_message(*left, comparator, *right));
    RuntimeError::eval_error(string_from_chars(out.as_slice()))
}

/// Whether `res` is what `spec_compare` gives: the same boolean, or an evaluation error
/// with the same message.
pub open spec fn spec_compare_outcome(
    res: Result<bool, RuntimeError>,
    expected: Result<bool, Seq<char>>,
) -> bool {
    match expected {
        Ok(b) => res == Ok::<bool, RuntimeError>(b),
        Err(m) => res is Err && is_eval_error(res->Err_0, m),
    }
}

/// `left comparator right` on two values.
pub fn eval_comparison(comparator: ComparatorEnum, left: &ValueEnum, right: &ValueEnum) -> (res:
    Result<bool, RuntimeError>)
    requires
        spec_value_wf(*left),
        spec_value_wf(*right),
    ensures
        spec_compare_outcome(res, spec_compare(comparator, *left, *right)),
{
    let equality = matches!(comparator, ComparatorEnum::Equals | ComparatorEnum::NotEquals);
    match (left, right) {
        (ValueEnum::NumberValue(a), ValueEnum::NumberValue(b)) => Ok(
            compare_exact_numbers(a, comparator, b),
        ),
        (ValueEnum::BooleanValue(a), ValueEnum::BooleanValue(b)) if equality => {
            compare_booleans(*a, comparator, *b)
        },
        (ValueEnum::StringValue(a), ValueEnum::StringValue(b)) if equality => {
            compare_string_values(a, comparator, b)
        },
        (
            ValueEnum::DateValue(ValueOrSv::Value(a)),
            ValueEnum::DateValue(ValueOrSv::Value(b)),
        ) => Ok(compare_chronological(a, comparator, b)),
        (
            ValueEnum::TimeValue(ValueOrSv::Value(a)),
            ValueEnum::TimeValue(ValueOrSv::Value(b)),
        ) => Ok(compare_chronological(a, comparator, b)),
        (
            ValueEnum::DateTimeValue(ValueOrSv::Value(a)),
            ValueEnum::DateTimeValue(ValueOrSv::Value(b)),
        ) => Ok(compare_chronological(a, comparator, b)),
        _ => Err(compare_error(left, comparator, right)),
    }
}

/// `left / right` on numbers held exactly: a missing left side stays missing, a missing
/// right side gives the left side, any other special value wins (the left one first), and a
/// fraction meeting a number is not found. Of two whole numbers only zero divided by a
/// number other than zero is held here (`spec_number_math_fits` asks for it), and gives
/// zero; other quotients of whole numbers are floating-point numbers.
pub open spec fn spec_div(left: ExactNumber, right: ExactNumber) -> ExactNumber {
    match (left, right) {
        (ExactNumber::Int(_), ExactNumber::Int(_)) => ExactNumber::Int(0),
        _ => spec_special_rule(left, right, ExactNumber::SV(SpecialValueEnum::Missing)),
    }
}

/// Whether `op` on two numbers stays within what is held here: whole-number results that
/// fit in 64 bits, a modulus by a number other than zero, and, for a division of two whole
/// numbers, only zero divided by a number other than zero (any other quotient of whole
/// numbers is a floating-point number).
pub open spec fn spec_number_math_fits(op: MathOperatorEnum, left: ExactNumber, right: ExactNumber) -> bool {
    match spec_int_operands(left, right) {
        Some((a, b)) => match op {
            MathOperatorEnum::Addition => i64::MIN <= a + b <= i64::MAX,
            MathOperatorEnum::Subtraction => i64::MIN <= a - b <= i64::MAX,
            MathOperatorEnum::Multiplication => i64::MIN <= a * b <= i64::MAX,
            MathOperatorEnum::Division => a == 0 && b != 0,
            MathOperatorEnum::Power => i64::MIN <= spec_power(a, ((b as i64) as u32) as nat)
                <= i64::MAX,
            MathOperatorEnum::Modulus => b != 0 && !(a == i64::MIN && b == -1),
        },
        None => op is Subtraction && left == ExactNumber::SV(SpecialValueEnum::Missing)
            ==> spec_negate_fits(right),
    }
}

/// What `op` on two numbers gives.
pub open spec fn spec_number_math(op: MathOperatorEnum, left: ExactNumber, right: ExactNumber) -> Result<
    ExactNumber,
    Seq<char>,
> {
    match op {
        MathOperatorEnum::Addition => Ok(spec_add(left, right)),
        MathOperatorEnum::Subtraction => Ok(spec_sub(left, right)),
        MathOperatorEnum::Multiplication => Ok(spec_mul(left, right)),
        MathOperatorEnum::Division => Ok(spec_div(left, right)),
        MathOperatorEnum::Modulus => Ok(spec_rem(left, right)),
        MathOperatorEnum::Power => match (left, right) {
            (ExactNumber::Int(a), ExactNumber::Int(b)) => Ok(
                ExactNumber::Int(spec_power(a as int, (b as u32) as nat) as i64),
            ),
            _ => Err(spec_power_message(left, right)),
        },
    }
}

/// `op` on two numbers.
fn number_math(op: MathOperatorEnum, left: ExactNumber, right: ExactNumber) -> (res: Result<
    ExactNumber,
    RuntimeError,
>)
    requires
        spec_number_math_fits(op, left, right),
    ensures
        match spec_number_math(op, left, right) {
            Ok(n) => res == Ok::<ExactNumber, RuntimeError>(n),
            Err(m) => res is Err && is_eval_error(res->Err_0, m),
        },
{
    match op {
        MathOperatorEnum::Addition => Ok(add_numbers(left, right)),
        MathOperatorEnum::Subtraction => Ok(sub_numbers(left, right)),
        MathOperatorEnum::Multiplication => Ok(mul_numbers(left, right)),
        MathOperatorEnum::Division => match (left, right) {
            (ExactNumber::Int(_), ExactNumber::Int(_)) => Ok(ExactNumber::Int(0)),
            (ExactNumber::SV(SpecialValueEnum::Missing), _) => Ok(
                ExactNumber::SV(SpecialValueEnum::Missing),
            ),
            (_, ExactNumber::SV(SpecialValueEnum::Missing)) => Ok(left),
            (ExactNumber::SV(_), _) => Ok(left),
            (_, ExactNumber::SV(_)) => Ok(right),
            _ => Ok(ExactNumber::SV(SpecialValueEnum::NotFound)),
        },
        MathOperatorEnum::Modulus => Ok(rem_numbers(left, right)),
        MathOperatorEnum::Power => pow_numbers(left, right),
    }
}

/// The message for an operator that does not apply to two values.
pub open spec fn spec_math_message(op: MathOperatorEnum, left: ValueEnum, right: ValueEnum) -> Seq<char> {
    "Operator '"@ + spec_math_operator_str(op) + "' is not implemented for '"@
        + spec_value_display(left) + " "@ + spec_math_operator_str(op) + " "@
        + spec_value_display(right) + "'"@
}

/// The error for an operator that does not apply to two values.
fn math_error(op: MathOperatorEnum, left: &ValueEnum, right: &ValueEnum) -> (res: RuntimeError)
    requires
        spec_value_wf(*left),
        spec_value_wf(*right),
    ensures
        is_eval_error(res, spec_math_message(op, *left, *right)),
{
    let mut out: Vec<char> = Vec::new();
    push_str_chars(&mut out, "Operator '");
    push_str_chars(&mut out, op.as_str());
    push_str_chars(&mut out, "' is not implemented for '");
    push_value_display(&mut out, left);
    push_str_chars(&mut out, " ");
    push_str_chars(&mut out, op.as_str());
    push_str_chars(&mut out, " ");
    push_value_display(&mut out, right);
    push_str_chars(&mut out, "'");
    assert(out@ =~= spec_math_message(op, *left, *right));
    RuntimeError::eval_error(string_from_chars(out.as_slice()))
}

/// Whether adding or subtracting the parts of two durations stays within 128 bits.
pub open spec fn spec_duration_math_fits(op: MathOperatorEnum, a: DurationValue, b: DurationValue) -> bool {
    &&& op is Addition ==> i128::MIN <= spec_months(a) + spec_months(b) <= i128::MAX
        && i128::MIN <= spec_seconds(a) + spec_seconds(b) <= i128::MAX
    &&& op is Subtraction ==> i128::MIN <= spec_months(a) - spec_months(b) <= i128::MAX
        && i128::MIN <= spec_seconds(a) - spec_seconds(b) <= i128::MAX
}

/// Whether a date can be moved by a duration with `op` where the `time` crate would not
/// panic.
pub open spec fn spec_date_move_ok(date: CalendarDate, d: DurationValue, op: MathOperatorEnum) -> bool {
    &&& spec_negatable(d, op)
    &&& spec_month_offset_fits(date, spec_signed_parts(d, op).0)
    &&& spec_date_duration_fits(date, d, op)
}

/// Whether a date and time can be moved by a duration with `op` where the `time` crate
/// would not panic.
pub open spec fn spec_datetime_move_ok(dt: CalendarDateTime, d: DurationValue, op: MathOperatorEnum) -> bool {
    &&& spec_negatable(d, op)
    &&& spec_month_offset_fits(dt.date, spec_signed_parts(d, op).0)
    &&& spec_datetime_duration_fits(dt, d, op)
}

/// Whether a time of day can be moved by a duration with `op` within 128 bits.
pub open spec fn spec_time_move_ok(d: DurationValue, op: MathOperatorEnum) -> bool {
    &&& spec_negatable(d, op)
    &&& spec_seconds(d) + 86400 < i128::MAX
    &&& -spec_seconds(d) + 86400 < i128::MAX
}

/// Whether `left op right` stays within what the library computes without overflow and
/// without floating point: both values are well formed, and each step that the operation
/// takes is within its bounds.
pub open spec fn spec_math_fits(op: MathOperatorEnum, left: ValueEnum, right: ValueEnum) -> bool {
    &&& spec_value_wf(left)
    &&& spec_value_wf(right)
    &&& match (left, right) {
        (ValueEnum::NumberValue(a), ValueEnum::NumberValue(b)) => spec_number_math_fits(op, a, b),
        (
            ValueEnum::DurationValue(ValueOrSv::Value(a)),
            ValueEnum::DurationValue(ValueOrSv::Value(b)),
        ) => spec_duration_math_fits(op, a, b),
        (
            ValueEnum::DateValue(ValueOrSv::Value(date)),
            ValueEnum::DurationValue(ValueOrSv::Value(d)),
        ) => spec_date_move_ok(date, d, op),
        (
            ValueEnum::DurationValue(ValueOrSv::Value(d)),
            ValueEnum::DateValue(ValueOrSv::Value(date)),
        ) => op is Addition ==> spec_date_move_ok(date, d, op),
        (
            ValueEnum::DateTimeValue(ValueOrSv::Value(dt)),
            ValueEnum::DurationValue(ValueOrSv::Value(d)),
        ) => spec_datetime_move_ok(dt, d, op),
        (
            ValueEnum::DurationValue(ValueOrSv::Value(d)),
            ValueEnum::DateTimeValue(ValueOrSv::Value(dt)),
        ) => op is Addition ==> spec_datetime_move_ok(dt, d, op),
        (
            ValueEnum::TimeValue(ValueOrSv::Value(_)),
            ValueEnum::DurationValue(ValueOrSv::Value(d)),
        ) => spec_time_move_ok(d, op),
        (
            ValueEnum::DurationValue(ValueOrSv::Value(d)),
            ValueEnum::TimeValue(ValueOrSv::Value(_)),
        ) => op is Addition ==> spec_time_move_ok(d, op),
        _ => true,
    }
}

/// `res` is the error with message `m`.
pub open spec fn spec_fails_with(res: Result<ValueEnum, RuntimeError>, m: Seq<char>) -> bool {
    res is Err && is_eval_error(res->Err_0, m)
}

/// The date inside `res`, where it holds one.
pub open spec fn spec_date_part(res: Result<ValueEnum, RuntimeError>) -> Result<CalendarDate, RuntimeError> {
    match res {
        Ok(ValueEnum::DateValue(ValueOrSv::Value(d))) => Ok(d),
        Ok(_) => Err(vstd::pervasive::arbitrary()),
        Err(e) => Err(e),
    }
}

/// The date and time inside `res`, where it holds one.
pub open spec fn spec_datetime_part(res: Result<ValueEnum, RuntimeError>) -> Result<
    CalendarDateTime,
    RuntimeError,
> {
    match res {
        Ok(ValueEnum::DateTimeValue(ValueOrSv::Value(d))) => Ok(d),
        Ok(_) => Err(vstd::pervasive::arbitrary()),
        Err(e) => Err(e),
    }
}

/// What moving the time of day `t` by `d` with `op` gives: an error for a duration with
/// months, the time moved around the clock otherwise.
pub open spec fn spec_time_moved(t: ClockTime, d: DurationValue, op: MathOperatorEnum, res: Result<
    ValueEnum,
    RuntimeError,
>) -> bool {
    if spec_months(d) != 0 {
        spec_fails_with(res, "Cannot apply month-based duration to time values"@)
    } else {
        res == Ok::<ValueEnum, RuntimeError>(
            ValueEnum::TimeValue(
                ValueOrSv::Value(
                    spec_clock_time_of(t.seconds_of_day() + spec_signed_parts(d, op).1),
                ),
            ),
        )
    }
}

/// A duration of `seconds` seconds, as a value.
pub open spec fn spec_seconds_value(seconds: int) -> ValueEnum {
    ValueEnum::DurationValue(ValueOrSv::Value(DurationValue::DaysTime { seconds: seconds as i128 }))
}

/// What `left op right` gives. Numbers go by the rules of numbers; two strings added are
/// their texts one after the other; two durations add or subtract part by part; a date, a
/// date with a time or a time of day moves by a duration (on either side for an addition);
/// a date added to a date with a time takes that time of day, and subtracted from it gives
/// the time between them; two dates, two times or two dates with times subtracted give the
/// time between them; anything else is an error naming the operator and both values.
pub open spec fn spec_math(op: MathOperatorEnum, left: ValueEnum, right: ValueEnum, res: Result<
    ValueEnum,
    RuntimeError,
>) -> bool {
    let add = op is Addition;
    let sub = op is Subtraction;
    match (left, right) {
        (ValueEnum::NumberValue(a), ValueEnum::NumberValue(b)) => match spec_number_math(op, a, b) {
            Ok(n) => res == Ok::<ValueEnum, RuntimeError>(ValueEnum::NumberValue(n)),
            Err(m) => spec_fails_with(res, m),
        },
        (ValueEnum::StringValue(a), ValueEnum::StringValue(b)) if add => res matches Ok(
            ValueEnum::StringValue(StringEnum::String(s)),
        ) && s@ == spec_string_value_text(a) + spec_string_value_text(b),
        (
            ValueEnum::DurationValue(ValueOrSv::Value(a)),
            ValueEnum::DurationValue(ValueOrSv::Value(b)),
        ) => if !(add || sub) {
            spec_fails_with(
                res,
                "Unsupported operator '"@ + spec_math_operator_str(op) + "' for duration values"@,
            )
        } else {
            let months = if add {
                spec_months(a) + spec_months(b)
            } else {
                spec_months(a) - spec_months(b)
            };
            let seconds = if add {
                spec_seconds(a) + spec_seconds(b)
            } else {
                spec_seconds(a) - spec_seconds(b)
            };
            if crate::duration::spec_mixed_signs(months, seconds) {
                spec_fails_with(res, crate::duration::mixed_signs_message())
            } else {
                res == Ok::<ValueEnum, RuntimeError>(
                    ValueEnum::DurationValue(
                        ValueOrSv::Value(crate::duration::spec_from_totals(months, seconds)),
                    ),
                )
            }
        },
        (
            ValueEnum::DateValue(ValueOrSv::Value(date)),
            ValueEnum::DurationValue(ValueOrSv::Value(d)),
        ) => (res is Err || res->Ok_0 matches ValueEnum::DateValue(ValueOrSv::Value(_)))
            && spec_date_moved(date, d, op, spec_date_part(res)),
        (
            ValueEnum::DurationValue(ValueOrSv::Value(d)),
            ValueEnum::DateValue(ValueOrSv::Value(date)),
        ) if add => (res is Err || res->Ok_0 matches ValueEnum::DateValue(ValueOrSv::Value(_)))
            && spec_date_moved(date, d, op, spec_date_part(res)),
        (
            ValueEnum::DateTimeValue(ValueOrSv::Value(dt)),
            ValueEnum::DurationValue(ValueOrSv::Value(d)),
        ) => (res is Err || res->Ok_0 matches ValueEnum::DateTimeValue(ValueOrSv::Value(_)))
            && spec_datetime_moved(dt, d, op, spec_datetime_part(res)),
        (
            ValueEnum::DurationValue(ValueOrSv::Value(d)),
            ValueEnum::DateTimeValue(ValueOrSv::Value(dt)),
        ) if add => (res is Err || res->Ok_0 matches ValueEnum::DateTimeValue(ValueOrSv::Value(_)))
            && spec_datetime_moved(dt, d, op, spec_datetime_part(res)),
        (
            ValueEnum::TimeValue(ValueOrSv::Value(t)),
            ValueEnum::DurationValue(ValueOrSv::Value(d)),
        ) => spec_time_moved(t, d, op, res),
        (
            ValueEnum::DurationValue(ValueOrSv::Value(d)),
            ValueEnum::TimeValue(ValueOrSv::Value(t)),
        ) if add => spec_time_moved(t, d, op, res),
        (
            ValueEnum::DateValue(ValueOrSv::Value(date)),
            ValueEnum::DateTimeValue(ValueOrSv::Value(dt)),
        ) => if add {
            res == Ok::<ValueEnum, RuntimeError>(
                ValueEnum::DateTimeValue(ValueOrSv::Value(CalendarDateTime { date, time: dt.time })),
            )
        } else if sub {
            res == Ok::<ValueEnum, RuntimeError>(
                spec_seconds_value(spec_julian_day(date) * 86400 - spec_instant(dt)),
            )
        } else {
            spec_fails_with(res, "Unsupported operator for date and datetime"@)
        },
        (
            ValueEnum::DateTimeValue(ValueOrSv::Value(dt)),
            ValueEnum::DateValue(ValueOrSv::Value(date)),
        ) => if add {
            res == Ok::<ValueEnum, RuntimeError>(
                ValueEnum::DateTimeValue(ValueOrSv::Value(CalendarDateTime { date, time: dt.time })),
            )
        } else if sub {
            res == Ok::<ValueEnum, RuntimeError>(
                spec_seconds_value(spec_instant(dt) - spec_julian_day(date) * 86400),
            )
        } else {
            spec_fails_with(res, "Unsupported operator for datetime and date"@)
        },
        (
            ValueEnum::DateValue(ValueOrSv::Value(a)),
            ValueEnum::DateValue(ValueOrSv::Value(b)),
        ) if sub => res == Ok::<ValueEnum, RuntimeError>(
            spec_seconds_value((spec_julian_day(a) - spec_julian_day(b)) * 86400),
        ),
        (
            ValueEnum::TimeValue(ValueOrSv::Value(a)),
            ValueEnum::TimeValue(ValueOrSv::Value(b)),
        ) if sub => res == Ok::<ValueEnum, RuntimeError>(
            spec_seconds_value(a.seconds_of_day() - b.seconds_of_day()),
        ),
        (
            ValueEnum::DateTimeValue(ValueOrSv::Value(a)),
            ValueEnum::DateTimeValue(ValueOrSv::Value(b)),
        ) if sub => res == Ok::<ValueEnum, RuntimeError>(
            spec_seconds_value(spec_instant(a) - spec_instant(b)),
        ),
        _ => spec_fails_with(res, spec_math_message(op, left, right)),
    }
}

/// `left op right` on two values.
pub fn eval_math(op: MathOperatorEnum, left: &ValueEnum, right: &ValueEnum) -> (res: Result<
    ValueEnum,
    RuntimeError,
>)
    requires
        spec_math_fits(op, *left, *right),
    ensures
        spec_math(op, *left, *right, res),
{
    let add = matches!(op, MathOperatorEnum::Addition);
    let sub = matches!(op, MathOperatorEnum::Subtraction);
    match (left, right) {
        (ValueEnum::NumberValue(a), ValueEnum::NumberValue(b)) => match number_math(op, *a, *b) {
            Ok(n) => Ok(ValueEnum::NumberValue(n)),
            Err(e) => Err(e),
        },
        (ValueEnum::StringValue(a), ValueEnum::StringValue(b)) if add => Ok(
            ValueEnum::StringValue(concat_string_values(a, b)),
        ),
        (
            ValueEnum::DurationValue(ValueOrSv::Value(a)),
            ValueEnum::DurationValue(ValueOrSv::Value(b)),
        ) => match operate_duration_values(&op, a, b) {
            Ok(d) => Ok(ValueEnum::DurationValue(ValueOrSv::Value(d))),
            Err(e) => Err(e),
        },
        (
            ValueEnum::DateValue(ValueOrSv::Value(date)),
            ValueEnum::DurationValue(ValueOrSv::Value(d)),
        ) => match apply_duration_to_date(*date, d, &op) {
            Ok(moved) => Ok(ValueEnum::DateValue(ValueOrSv::Value(moved))),
            Err(e) => Err(e),
        },
        (
            ValueEnum::DurationValue(ValueOrSv::Value(d)),
            ValueEnum::DateValue(ValueOrSv::Value(date)),
        ) if add => match apply_duration_to_date(*date, d, &op) {
            Ok(moved) => Ok(ValueEnum::DateValue(ValueOrSv::Value(moved))),
            Err(e) => Err(e),
        },
        (
            ValueEnum::DateTimeValue(ValueOrSv::Value(dt)),
            ValueEnum::DurationValue(ValueOrSv::Value(d)),
        ) => match apply_duration_to_datetime(*dt, d, &op) {
            Ok(moved) => Ok(ValueEnum::DateTimeValue(ValueOrSv::Value(moved))),
            Err(e) => Err(e),
        },
        (
            ValueEnum::DurationValue(ValueOrSv::Value(d)),
            ValueEnum::DateTimeValue(ValueOrSv::Value(dt)),
        ) if add => match apply_duration_to_datetime(*dt, d, &op) {
            Ok(moved) => Ok(ValueEnum::DateTimeValue(ValueOrSv::Value(moved))),
            Err(e) => Err(e),
        },
        (
            ValueEnum::TimeValue(ValueOrSv::Value(t)),
            ValueEnum::DurationValue(ValueOrSv::Value(d)),
        ) => match apply_duration_to_time(*t, d, &op) {
            Ok(moved) => Ok(ValueEnum::TimeValue(ValueOrSv::Value(moved))),
            Err(e) => Err(e),
        },
        (
            ValueEnum::DurationValue(ValueOrSv::Value(d)),
            ValueEnum::TimeValue(ValueOrSv::Value(t)),
        ) if add => match apply_duration_to_time(*t, d, &op) {
            Ok(moved) => Ok(ValueEnum::TimeValue(ValueOrSv::Value(moved))),
            Err(e) => Err(e),
        },
        (
            ValueEnum::DateValue(ValueOrSv::Value(date)),
            ValueEnum::DateTimeValue(ValueOrSv::Value(dt)),
        ) => if add {
            Ok(ValueEnum::DateTimeValue(ValueOrSv::Value(merge_date_with_datetime(*date, *dt))))
        } else if sub {
            Ok(ValueEnum::DurationValue(ValueOrSv::Value(date_minus_datetime(*date, *dt))))
        } else {
            Err(RuntimeError::eval_error(String::from_str("Unsupported operator for date and datetime")))
        },
        (
            ValueEnum::DateTimeValue(ValueOrSv::Value(dt)),
            ValueEnum::DateValue(ValueOrSv::Value(date)),
        ) => if add {
            Ok(ValueEnum::DateTimeValue(ValueOrSv::Value(merge_date_with_datetime(*date, *dt))))
        } else if sub {
            Ok(ValueEnum::DurationValue(ValueOrSv::Value(datetime_minus_date(*dt, *date))))
        } else {
            Err(RuntimeError::eval_error(String::from_str("Unsupported operator for datetime and date")))
        },
        (
            ValueEnum::DateValue(ValueOrSv::Value(a)),
            ValueEnum::DateValue(ValueOrSv::Value(b)),
        ) if sub => Ok(ValueEnum::DurationValue(ValueOrSv::Value(date_difference(*a, *b)))),
        (
            ValueEnum::TimeValue(ValueOrSv::Value(a)),
            ValueEnum::TimeValue(ValueOrSv::Value(b)),
        ) if sub => Ok(ValueEnum::DurationValue(ValueOrSv::Value(time_difference(*a, *b)))),
        (
            ValueEnum::DateTimeValue(ValueOrSv::Value(a)),
            ValueEnum::DateTimeValue(ValueOrSv::Value(b)),
        ) if sub => Ok(ValueEnum::DurationValue(ValueOrSv::Value(datetime_difference(*a, *b)))),
        _ => Err(math_error(op, left, right)),
    }
}

impl ValueEnum {
    /// The type of the value.
    pub fn get_type(&self) -> (res: ValueType)
        ensures
            res == spec_value_type(*self),
    {
        match self {
            ValueEnum::NumberValue(_) => ValueType::NumberType,
            ValueEnum::BooleanValue(_) => ValueType::BooleanType,
            ValueEnum::StringValue(_) => ValueType::StringType,
            ValueEnum::DateValue(_) => ValueType::DateType,
            ValueEnum::TimeValue(_) => ValueType::TimeType,
            ValueEnum::DateTimeValue(_) => ValueType::DateTimeType,
            ValueEnum::DurationValue(_) => ValueType::DurationType,
            ValueEnum::Array(ArrayValue::EmptyUntyped) => ValueType::ListType(
                Box::new(ValueType::UndefinedType),
            ),
            ValueEnum::Array(ArrayValue::PrimitivesArray { item_type, .. }) => ValueType::ListType(
                Box::new(clone_type(item_type)),
            ),
        }
    }
}

/// The items of a list that a filter keeps, given what its condition gave on each item in
/// order: the items at the kept positions, in order, or the first error that stops the
/// filter.
pub open spec fn spec_select(items: Seq<ValueEnum>, outcomes: Seq<ConditionOutcome>) -> Result<
    Seq<ValueEnum>,
    RuntimeError,
> {
    match spec_filter_positions(outcomes) {
        Ok(kept) => Ok(kept.map_values(|p: usize| items[p as int])),
        Err(e) => Err(e),
    }
}

/// The number of items of a list value.
pub open spec fn spec_array_len(array: ArrayValue) -> nat {
    match array {
        ArrayValue::EmptyUntyped => 0,
        ArrayValue::PrimitivesArray { values, .. } => values@.len(),
    }
}

/// A list filtered by a condition, given what the condition gave on each item in order: a
/// list with no items stays as it is; otherwise the kept items, in order, with the item type
/// of the list; the first error that stops the filter is returned instead.
pub fn select_from_list(array: ArrayValue, outcomes: Vec<ConditionOutcome>) -> (res: Result<
    ValueEnum,
    RuntimeError,
>)
    requires
        outcomes@.len() == spec_array_len(array),
    ensures
        match array {
            ArrayValue::EmptyUntyped => res == Ok::<ValueEnum, RuntimeError>(
                ValueEnum::Array(ArrayValue::EmptyUntyped),
            ),
            ArrayValue::PrimitivesArray { values: items, item_type: t } => match spec_select(
                items@,
                outcomes@,
            ) {
                Ok(kept) => res matches Ok(
                    ValueEnum::Array(ArrayValue::PrimitivesArray { values, item_type }),
                ) && values@ == kept && item_type == t,
                Err(e) => res == Err::<ValueEnum, RuntimeError>(e),
            },
        },
{
    match array {
        ArrayValue::EmptyUntyped => Ok(ValueEnum::Array(ArrayValue::EmptyUntyped)),
        ArrayValue::PrimitivesArray { values, item_type } => {
            assert(outcomes@.len() == outcomes.len());
            let positions = match filter_positions(outcomes) {
                Ok(p) => p,
                Err(e) => return Err(e),
            };
            let ghost kept = positions@;
            proof {
                lemma_filter_keeps_exactly(outcomes@, kept);
            }
            let ghost all = values@;
            let n = values.len();
            let mut rest = values;
            let mut filtered: Vec<ValueEnum> = Vec::new();
            let mut i: usize = 0;
            let mut j: usize = 0;
            while i < n
                invariant
                    kept == positions@,
                    all.len() == n,
                    outcomes@.len() == n,
                    i <= n,
                    j <= kept.len(),
                    rest@ == all.subrange(i as int, n as int),
                    forall|a: int, b: int| 0 <= a < b < kept.len() ==> kept[a] < kept[b],
                    forall|a: int| 0 <= a < kept.len() ==> kept[a] < n,
                    j < kept.len() ==> kept[j as int] >= i,
                    j > 0 ==> kept[j - 1] < i,
                    filtered@ == kept.take(j as int).map_values(|p: usize| all[p as int]),
                decreases n - i,
            {
                let item = rest.remove(0);
                assert(item == all[i as int]);
                assert(rest@ =~= all.subrange(i as int + 1, n as int));
                if j < positions.len() && positions[j] == i {
                    filtered.push(item);
                    assert(kept.take(j + 1) =~= kept.take(j as int).push(i));
                    assert(filtered@ =~= kept.take(j + 1).map_values(|p: usize| all[p as int]));
                    j = j + 1;
                    proof {
                        if j < kept.len() {
                            assert(kept[j - 1] < kept[j as int]);
                        }
                    }
                }
                i = i + 1;
            }
            proof {
                if j < kept.len() {
                    assert(kept[j as int] < n);
                }
            }
            assert(kept.take(kept.len() as int) =~= kept);
            Ok(ValueEnum::Array(ArrayValue::PrimitivesArray { values: filtered, item_type }))
        },
    }
}

/// The item type a list cast asks for: none where the list type leaves it undefined.
pub open spec fn spec_wanted_item_type(inner: ValueType) -> Option<ValueType> {
    if inner == ValueType::UndefinedType {
        None
    } else {
        Some(inner)
    }
}

/// How many list types `t` nests.
pub open spec fn spec_list_depth(t: ValueType) -> nat
    decreases t,
{
    match t {
        ValueType::ListType(inner) => 1 + spec_list_depth(*inner),
        _ => 0,
    }
}

/// Whether `res` is `value` cast to the type `target`. A cast to a type that is not a list
/// type leaves the value as it is. Cast to a list type: a list with no item type takes the
/// wanted item type (and stays without one where none is wanted); a list has each of its
/// items cast, in order, to the wanted item type, or to its own item type where none is
/// wanted, and takes that item type; any other value becomes a list of that one value,
/// cast to the wanted item type, or a list of the value as it is, of its own type, where
/// none is wanted.
pub open spec fn spec_cast(value: ValueEnum, target: ValueType, res: ValueEnum) -> bool
    decreases value, spec_list_depth(target),
{
    match target {
        ValueType::ListType(inner) => match value {
            ValueEnum::Array(ArrayValue::EmptyUntyped) => match spec_wanted_item_type(*inner) {
                None => res == ValueEnum::Array(ArrayValue::EmptyUntyped),
                Some(t) => res matches ValueEnum::Array(
                    ArrayValue::PrimitivesArray { values, item_type },
                ) && values@.len() == 0 && item_type == t,
            },
            ValueEnum::Array(ArrayValue::PrimitivesArray { values: items, item_type: own }) => {
                let t = match spec_wanted_item_type(*inner) {
                    Some(t) => t,
                    None => own,
                };
                res matches ValueEnum::Array(ArrayValue::PrimitivesArray { values, item_type })
                    && item_type == t && values@.len() == items@.len() && spec_items_cast(
                    items,
                    values,
                    t,
                    items@.len(),
                )
            },
            _ => match spec_wanted_item_type(*inner) {
                Some(t) => res matches ValueEnum::Array(
                    ArrayValue::PrimitivesArray { values, item_type },
                ) && item_type == t && values@.len() == 1 && spec_cast(value, t, values@[0]),
                None => res matches ValueEnum::Array(
                    ArrayValue::PrimitivesArray { values, item_type },
                ) && item_type == spec_value_type(value) && values@ == seq![value],
            },
        },
        _ => res == value,
    }
}

/// Whether the first `n` of `cast` are the first `n` of `items`, each cast to the type `t`.
pub open spec fn spec_items_cast(items: Vec<ValueEnum>, cast: Vec<ValueEnum>, t: ValueType, n: nat) -> bool
    decreases items, n,
{
    if n == 0 || n > items.len() || n > cast.len() {
        n == 0
    } else {
        spec_items_cast(items, cast, t, (n - 1) as nat) && spec_cast(items[n - 1], t, cast[n - 1])
    }
}

/// Items cast up to `n` stay cast when more items follow.
proof fn lemma_items_cast_extend(items: Vec<ValueEnum>, cast: Vec<ValueEnum>, more: Vec<ValueEnum>, t: ValueType, n: nat)
    requires
        spec_items_cast(items, cast, t, n),
        n <= cast@.len(),
        cast@.len() <= more@.len(),
        more@.subrange(0, cast@.len() as int) == cast@,
    ensures
        spec_items_cast(items, more, t, n),
    decreases n,
{
    if n > 0 {
        lemma_items_cast_extend(items, cast, more, t, (n - 1) as nat);
        assert(more@[n - 1] == cast@[n - 1]);
    }
}

/// `value` cast to the type `target`, as `spec_cast` says.
#[verifier::loop_isolation(false)]
pub fn cast_value(value: ValueEnum, target: &ValueType) -> (res: ValueEnum)
    ensures
        spec_cast(value, *target, res),
    decreases value, spec_list_depth(*target),
{
    let ghost v0 = value;
    match target {
        ValueType::ListType(inner) => {
            let wanted = if (&**inner).same_as(&ValueType::UndefinedType) {
                None
            } else {
                Some(clone_type(&**inner))
            };
            match value {
                ValueEnum::Array(ArrayValue::EmptyUntyped) => match wanted {
                    Some(t) => ValueEnum::Array(
                        ArrayValue::PrimitivesArray { values: Vec::new(), item_type: t },
                    ),
                    None => ValueEnum::Array(ArrayValue::EmptyUntyped),
                },
                ValueEnum::Array(ArrayValue::PrimitivesArray { values, item_type }) => {
                    let t = match wanted {
                        Some(t) => t,
                        None => item_type,
                    };
                    let ghost items = values;
                    proof {
                        let a = v0->Array_0;
                        assert(decreases_to!(v0 => a));
                        assert(decreases_to!(a => a->values));
                    }
                    let n = values.len();
                    let mut rest = values;
                    let mut cast: Vec<ValueEnum> = Vec::new();
                    let mut i: usize = 0;
                    while i < n
                        invariant
                            n == items@.len(),
                            i <= n,
                            cast@.len() == i,
                            rest@ == items@.subrange(i as int, n as int),
                            spec_items_cast(items, cast, t, i as nat),
                            decreases_to!(v0 => items),
                        decreases n - i,
                    {
                        let item = rest.remove(0);
                        assert(item == items@[i as int]);
                        assert(rest@ =~= items@.subrange(i as int + 1, n as int));
                        proof {
                            assert(decreases_to!(items => items[i as int]));
                            assert(decreases_to!(v0 => items[i as int]));
                        }
                        let c = cast_value(item, &t);
                        let ghost before = cast;
                        cast.push(c);
                        proof {
                            assert(cast@.subrange(0, before@.len() as int) =~= before@);
                            lemma_items_cast_extend(items, before, cast, t, i as nat);
                        }
                        i = i + 1;
                    }
                    ValueEnum::Array(ArrayValue::PrimitivesArray { values: cast, item_type: t })
                },
                other => match wanted {
                    Some(t) => {
                        let c = cast_value(other, &t);
                        let mut values: Vec<ValueEnum> = Vec::new();
                        values.push(c);
                        ValueEnum::Array(ArrayValue::PrimitivesArray { values, item_type: t })
                    },
                    None => {
                        let t = other.get_type();
                        let mut values: Vec<ValueEnum> = Vec::new();
                        values.push(other);
                        ValueEnum::Array(ArrayValue::PrimitivesArray { values, item_type: t })
                    },
                },
            }
        },
        _ => value,
    }
}

/// `x` with the sign of a negative total where `negative` holds.
pub open spec fn spec_signed_part(x: int, negative: bool) -> int {
    if negative {
        -x
    } else {
        x
    }
}

/// The whole-number field `name` of the duration `d`: its days, hours, minutes and seconds
/// (the second part split into days of 86400 seconds, hours and minutes, each with the sign
/// of the second part), its total seconds, its years and months (the month part split into
/// years, each with the sign of the month part) and its total months. The total minutes and
/// total hours are floating-point numbers and have no whole-number field here.
pub open spec fn spec_duration_field(d: DurationValue, name: Seq<char>) -> Option<int> {
    let s = spec_seconds(d);
    let a = if s < 0 { -s } else { s };
    let m = spec_months(d);
    let b = if m < 0 { -m } else { m };
    if name == "days"@ {
        Some(spec_signed_part(a / 86400, s < 0))
    } else if name == "hours"@ {
        Some(spec_signed_part((a % 86400) / 3600, s < 0))
    } else if name == "minutes"@ {
        Some(spec_signed_part((a % 3600) / 60, s < 0))
    } else if name == "seconds"@ {
        Some(spec_signed_part(a % 60, s < 0))
    } else if name == "totalSeconds"@ {
        Some(s)
    } else if name == "years"@ {
        Some(spec_signed_part(b / 12, m < 0))
    } else if name == "months"@ {
        Some(spec_signed_part(b % 12, m < 0))
    } else if name == "totalMonths"@ {
        Some(m)
    } else {
        None
    }
}

/// Whether `name` is a duration field whose value is a floating-point number.
pub open spec fn spec_float_duration_field(name: Seq<char>) -> bool {
    name == "totalMinutes"@ || name == "totalHours"@
}

/// The whole-number field `name` of the duration `d`, as `spec_duration_field` says.
fn duration_field(d: &DurationValue, name: &str) -> (res: Option<i128>)
    requires
        spec_abs_representable(*d),
    ensures
        match spec_duration_field(*d, name@) {
            Some(v) => res == Some(v as i128),
            None => res is None,
        },
{
    proof {
        reveal_strlit("days");
        reveal_strlit("hours");
        reveal_strlit("minutes");
        reveal_strlit("seconds");
        reveal_strlit("totalSeconds");
        reveal_strlit("years");
        reveal_strlit("months");
        reveal_strlit("totalMonths");
    }
    let (m, s) = d.components();
    let negative = s < 0;
    let a: i128 = if negative { -s } else { s };
    let mneg = m < 0;
    let b: i128 = if mneg { -m } else { m };
    let c = chars_of(name);
    let n = c.as_slice();
    let v: i128 = if chars_equal_str(n, "days") {
        a / 86400
    } else if chars_equal_str(n, "hours") {
        (a % 86400) / 3600
    } else if chars_equal_str(n, "minutes") {
        (a % 3600) / 60
    } else if chars_equal_str(n, "seconds") {
        a % 60
    } else if chars_equal_str(n, "totalSeconds") {
        return Some(s);
    } else if chars_equal_str(n, "years") {
        return Some(if mneg { -(b / 12) } else { b / 12 });
    } else if chars_equal_str(n, "months") {
        return Some(if mneg { -(b % 12) } else { b % 12 });
    } else if chars_equal_str(n, "totalMonths") {
        return Some(m);
    } else {
        return None;
    };
    Some(if negative { -v } else { v })
}

/// The message for selecting a field from a value that is not an object.
pub open spec fn spec_not_object_message(source: Seq<char>, value: ValueEnum) -> Seq<char> {
    "Cannot select '"@ + source + "' because data type is "@ + spec_type_string(
        spec_value_type(value),
    ) + " and not an object"@
}

/// The field `name` selected from `value`, shown in code as `source`: the year, month,
/// day and weekday of a date, the hour, minute and second of a time of day, all of these
/// and the time of a date with a time, and the whole-number fields of a duration (as
/// `spec_duration_field` says; `requires` leaves out its floating-point total minutes and
/// total hours, and fields beyond 64 bits); another name is a field that is not found; a
/// value of any other kind, special values among them, is not an object to select from.
pub fn select_field(value: &ValueEnum, name: &str, source: &str) -> (res: Result<
    ValueEnum,
    RuntimeError,
>)
    requires
        spec_value_wf(*value),
        *value matches ValueEnum::DurationValue(ValueOrSv::Value(d)) ==> !spec_float_duration_field(
            name@,
        ) && (spec_duration_field(d, name@) matches Some(v) ==> i64::MIN <= v <= i64::MAX),
    ensures
        match *value {
            ValueEnum::DurationValue(ValueOrSv::Value(d)) => match spec_duration_field(d, name@) {
                Some(v) => res == Ok::<ValueEnum, RuntimeError>(
                    ValueEnum::NumberValue(ExactNumber::Int(v as i64)),
                ),
                None => res is Err && is_field_not_found(res->Err_0, name@, "duration"@),
            },
            ValueEnum::DateValue(ValueOrSv::Value(d)) => match spec_date_field(d, name@) {
                Some(v) => res == Ok::<ValueEnum, RuntimeError>(
                    ValueEnum::NumberValue(ExactNumber::Int(v as i64)),
                ),
                None => res is Err && is_field_not_found(res->Err_0, name@, "date"@),
            },
            ValueEnum::TimeValue(ValueOrSv::Value(t)) => match spec_time_field(t, name@) {
                Some(v) => res == Ok::<ValueEnum, RuntimeError>(
                    ValueEnum::NumberValue(ExactNumber::Int(v as i64)),
                ),
                None => res is Err && is_field_not_found(res->Err_0, name@, "time"@),
            },
            ValueEnum::DateTimeValue(ValueOrSv::Value(dt)) => match spec_datetime_field(dt, name@) {
                Some(TemporalField::Number(n)) => res == Ok::<ValueEnum, RuntimeError>(
                    ValueEnum::NumberValue(ExactNumber::Int(n)),
                ),
                Some(TemporalField::Time(t)) => res == Ok::<ValueEnum, RuntimeError>(
                    ValueEnum::TimeValue(ValueOrSv::Value(t)),
                ),
                None => res is Err && is_field_not_found(res->Err_0, name@, "date and time"@),
            },
            _ => res is Err && is_eval_error(res->Err_0, spec_not_object_message(source@, *value)),
        },
{
    match value {
        ValueEnum::DateValue(ValueOrSv::Value(d)) => match select_date_field(*d, name) {
            Ok(v) => Ok(ValueEnum::NumberValue(ExactNumber::Int(v))),
            Err(e) => Err(e),
        },
        ValueEnum::TimeValue(ValueOrSv::Value(t)) => match select_time_field(*t, name) {
            Ok(v) => Ok(ValueEnum::NumberValue(ExactNumber::Int(v))),
            Err(e) => Err(e),
        },
        ValueEnum::DateTimeValue(ValueOrSv::Value(dt)) => match select_datetime_field(*dt, name) {
            Ok(TemporalField::Number(n)) => Ok(ValueEnum::NumberValue(ExactNumber::Int(n))),
            Ok(TemporalField::Time(t)) => Ok(ValueEnum::TimeValue(ValueOrSv::Value(t))),
            Err(e) => Err(e),
        },
        ValueEnum::DurationValue(ValueOrSv::Value(d)) => match duration_field(d, name) {
            Some(v) => Ok(ValueEnum::NumberValue(ExactNumber::Int(v as i64))),
            None => {
                proof {
                    reveal_strlit("duration");
                }
                Err(RuntimeError::field_not_found(name, "duration"))
            },
        },
        _ => {
            let mut out: Vec<char> = Vec::new();
            push_str_chars(&mut out, "Cannot select '");
            push_str_chars(&mut out, source);
            push_str_chars(&mut out, "' because data type is ");
            let shown = value.get_type().to_type_string();
            push_str_chars(&mut out, shown.as_str());
            push_str_chars(&mut out, " and not an object");
            assert(out@ =~= spec_not_object_message(source@, *value));
            Err(RuntimeError::eval_error(string_from_chars(out.as_slice())))
        },
    }
}

/// The message for a member that a value does not have.
pub open spec fn spec_no_item_message(value: ValueEnum, name: Seq<char>) -> Seq<char> {
    "Value '"@ + spec_value_display(value) + "' does not have '"@ + name + "' item"@
}

/// The member `name` of a value met while browsing a path: the fields of a date, a time of
/// day and a date with a time, as `select_field` gives them; nothing for any other member or
/// value.
pub open spec fn spec_value_member(value: ValueEnum, name: Seq<char>) -> Option<ValueEnum> {
    match value {
        ValueEnum::DateValue(ValueOrSv::Value(d)) => match spec_date_field(d, name) {
            Some(v) => Some(ValueEnum::NumberValue(ExactNumber::Int(v as i64))),
            None => None,
        },
        ValueEnum::TimeValue(ValueOrSv::Value(t)) => match spec_time_field(t, name) {
            Some(v) => Some(ValueEnum::NumberValue(ExactNumber::Int(v as i64))),
            None => None,
        },
        ValueEnum::DateTimeValue(ValueOrSv::Value(dt)) => match spec_datetime_field(dt, name) {
            Some(TemporalField::Number(n)) => Some(ValueEnum::NumberValue(ExactNumber::Int(n))),
            Some(TemporalField::Time(t)) => Some(ValueEnum::TimeValue(ValueOrSv::Value(t))),
            None => None,
        },
        _ => None,
    }
}

/// The member `name` of a value met while browsing a path: the same members as
/// `select_field` gives for dates, times of day and dates with times; any other member, or
/// a member of any other value, is a linking error naming the value and the member.
pub fn browse_value(value: &ValueEnum, name: &str) -> (res: Result<ValueEnum, LinkingError>)
    requires
        spec_value_wf(*value),
    ensures
        match spec_value_member(*value, name@) {
            Some(m) => res == Ok::<ValueEnum, LinkingError>(m),
            None => res is Err && res->Err_0.error is OtherLinkingError
                && res->Err_0.error->OtherLinkingError_0@ == spec_no_item_message(*value, name@)
                && res->Err_0.context@.len() == 0,
        },
        res matches Ok(m) ==> spec_value_wf(m),
{
    let selected = match value {
        ValueEnum::DateValue(ValueOrSv::Value(_))
        | ValueEnum::TimeValue(ValueOrSv::Value(_))
        | ValueEnum::DateTimeValue(ValueOrSv::Value(_)) => select_field(value, name, ""),
        _ => Err(RuntimeError::eval_error(String::new())),
    };
    match selected {
        Ok(v) => Ok(v),
        Err(_) => {
            let mut out: Vec<char> = Vec::new();
            push_str_chars(&mut out, "Value '");
            push_value_display(&mut out, value);
            push_str_chars(&mut out, "' does not have '");
            push_str_chars(&mut out, name);
            push_str_chars(&mut out, "' item");
            assert(out@ =~= spec_no_item_message(*value, name@));
            Err(LinkingError::other_error(string_from_chars(out.as_slice())))
        },
    }
}

/// The value that stands for a missing value of type `t`, for a type that is not a list
/// type: the missing special value of a number, a date, a time, a date with a time or a
/// duration, and a missing string value for any other type.
pub open spec fn spec_missing_for_type(t: ValueType) -> ValueEnum {
    let m = SpecialValueEnum::Missing;
    match t {
        ValueType::NumberType => ValueEnum::NumberValue(ExactNumber::SV(m)),
        ValueType::DateType => ValueEnum::DateValue(ValueOrSv::Sv(m)),
        ValueType::TimeType => ValueEnum::TimeValue(ValueOrSv::Sv(m)),
        ValueType::DateTimeType => ValueEnum::DateTimeValue(ValueOrSv::Sv(m)),
        ValueType::DurationType => ValueEnum::DurationValue(ValueOrSv::Sv(m)),
        _ => ValueEnum::StringValue(StringEnum::SV(m)),
    }
}

/// The value that stands for a missing value of type `t`: as `spec_missing_for_type` says,
/// and for a list type a list with no items, of the list's item type (with no item type where
/// the list type leaves it undefined).
pub fn missing_for_type(t: &ValueType) -> (res: ValueEnum)
    ensures
        match *t {
            ValueType::ListType(inner) => if *inner == ValueType::UndefinedType {
                res == ValueEnum::Array(ArrayValue::EmptyUntyped)
            } else {
                res matches ValueEnum::Array(ArrayValue::PrimitivesArray { values, item_type })
                    && values@.len() == 0 && item_type == *inner
            },
            _ => res == spec_missing_for_type(*t),
        },
{
    let m = SpecialValueEnum::Missing;
    match t {
        ValueType::NumberType => ValueEnum::NumberValue(ExactNumber::SV(m)),
        ValueType::DateType => ValueEnum::DateValue(ValueOrSv::Sv(m)),
        ValueType::TimeType => ValueEnum::TimeValue(ValueOrSv::Sv(m)),
        ValueType::DateTimeType => ValueEnum::DateTimeValue(ValueOrSv::Sv(m)),
        ValueType::DurationType => ValueEnum::DurationValue(ValueOrSv::Sv(m)),
        ValueType::ListType(inner) => if (&**inner).same_as(&ValueType::UndefinedType) {
            ValueEnum::Array(ArrayValue::EmptyUntyped)
        } else {
            ValueEnum::Array(
                ArrayValue::PrimitivesArray { values: Vec::new(), item_type: clone_type(&**inner) },
            )
        },
        _ => ValueEnum::StringValue(StringEnum::SV(m)),
    }
}

#[verifier::spinoff_prover]
/// The type that linking gives an arithmetic operation is the type of every value that
/// evaluating it gives: a date, a date with a time or a time of day moved by a duration
/// stays of its kind, the time between two of them is a duration, and so on.
pub proof fn lemma_linked_type_of_math(
    op: MathOperatorEnum,
    left: ValueEnum,
    right: ValueEnum,
    v: ValueEnum,
    t: ValueType,
)
    requires
        spec_math(op, left, right, Ok(v)),
        spec_math_link(op, spec_value_type(left), spec_value_type(right), Ok(t)),
    ensures
        spec_value_type(v) == t,
{
}

} // verus!
