use vstd::prelude::*;

use crate::errors::LinkingError;
use crate::link_rules::{is_type_mismatch, is_types_differ};
use crate::operators::{spec_comparator_str, ComparatorEnum, MathOperatorEnum};
use crate::types::{clone_type, ValueType};

verus! {

/// The types that `+` and `-` take besides strings.
pub open spec fn spec_arithmetic_operand_types() -> Seq<ValueType> {
    seq![
        ValueType::NumberType,
        ValueType::DateType,
        ValueType::DateTimeType,
        ValueType::TimeType,
        ValueType::DurationType,
    ]
}

/// What adding a value of type `right` to one of type `left` gives, for durations and the
/// points in time they move; `None` for any other pair.
pub open spec fn spec_addition_type(left: ValueType, right: ValueType) -> Option<ValueType> {
    match (left, right) {
        (ValueType::DurationType, ValueType::DurationType) => Some(ValueType::DurationType),
        (ValueType::DateType, ValueType::DurationType) => Some(ValueType::DateType),
        (ValueType::DurationType, ValueType::DateType) => Some(ValueType::DateType),
        (ValueType::DateTimeType, ValueType::DurationType) => Some(ValueType::DateTimeType),
        (ValueType::DurationType, ValueType::DateTimeType) => Some(ValueType::DateTimeType),
        (ValueType::TimeType, ValueType::DurationType) => Some(ValueType::TimeType),
        (ValueType::DurationType, ValueType::TimeType) => Some(ValueType::TimeType),
        (ValueType::DateType, ValueType::DateTimeType) => Some(ValueType::DateTimeType),
        (ValueType::DateTimeType, ValueType::DateType) => Some(ValueType::DateTimeType),
        _ => None,
    }
}

/// What subtracting a value of type `right` from one of type `left` gives: the duration
/// between two points in time, a point in time moved back, or a duration; `None` for any
/// other pair.
pub open spec fn spec_subtraction_type(left: ValueType, right: ValueType) -> Option<ValueType> {
    match (left, right) {
        (ValueType::DateType, ValueType::DateType) => Some(ValueType::DurationType),
        (ValueType::TimeType, ValueType::TimeType) => Some(ValueType::DurationType),
        (ValueType::DateTimeType, ValueType::DateTimeType) => Some(ValueType::DurationType),
        (ValueType::DateType, ValueType::DurationType) => Some(ValueType::DateType),
        (ValueType::DateTimeType, ValueType::DurationType) => Some(ValueType::DateTimeType),
        (ValueType::TimeType, ValueType::DurationType) => Some(ValueType::TimeType),
        (ValueType::DurationType, ValueType::DurationType) => Some(ValueType::DurationType),
        (ValueType::DateType, ValueType::DateTimeType) => Some(ValueType::DurationType),
        (ValueType::DateTimeType, ValueType::DateType) => Some(ValueType::DurationType),
        _ => None,
    }
}

/// `res` is what linking `left operator right` gives: a number where a side is not known
/// yet or both are numbers; for `+`, a string for two strings, an error on the side that is
/// not a string where the other is, and otherwise the type of `spec_addition_type`; for
/// `-`, the type of `spec_subtraction_type`; the other operators take two numbers.
pub open spec fn spec_math_link(
    operator: MathOperatorEnum,
    left: ValueType,
    right: ValueType,
    res: Result<ValueType, LinkingError>,
) -> bool {
    if left is UndefinedType || right is UndefinedType || (left is NumberType && right is NumberType) {
        res == Ok::<ValueType, LinkingError>(ValueType::NumberType)
    } else {
        match operator {
            MathOperatorEnum::Addition => if left is StringType && right is StringType {
                res == Ok::<ValueType, LinkingError>(ValueType::StringType)
            } else if right is StringType {
                res is Err && is_type_mismatch(
                    res->Err_0,
                    Some("Left side of operator '+'"@),
                    left,
                    seq![ValueType::StringType],
                )
            } else if left is StringType {
                res is Err && is_type_mismatch(
                    res->Err_0,
                    Some("Right side of operator '+'"@),
                    right,
                    seq![ValueType::StringType],
                )
            } else {
                match spec_addition_type(left, right) {
                    Some(t) => res == Ok::<ValueType, LinkingError>(t),
                    None => res is Err && is_type_mismatch(
                        res->Err_0,
                        Some("Operator '+'"@),
                        left,
                        spec_arithmetic_operand_types(),
                    ),
                }
            },
            MathOperatorEnum::Subtraction => match spec_subtraction_type(left, right) {
                Some(t) => res == Ok::<ValueType, LinkingError>(t),
                None => res is Err && is_type_mismatch(
                    res->Err_0,
                    Some("Operator '-'"@),
                    left,
                    spec_arithmetic_operand_types(),
                ),
            },
            _ => if left != right {
                res is Err && is_types_differ(res->Err_0, "Operator"@, left, right)
            } else {
                res is Err && is_type_mismatch(
                    res->Err_0,
                    Some("Operator"@),
                    right,
                    seq![ValueType::NumberType],
                )
            },
        }
    }
}

/// The types that `+` and `-` take besides strings.
fn arithmetic_operand_types() -> (res: Vec<ValueType>)
    ensures
        res@ == spec_arithmetic_operand_types(),
{
    let res = vec![
        ValueType::NumberType,
        ValueType::DateType,
        ValueType::DateTimeType,
        ValueType::TimeType,
        ValueType::DurationType,
    ];
    assert(res@ =~= spec_arithmetic_operand_types());
    res
}

/// What adding values of types `left` and `right` gives, for durations and the points in
/// time they move.
fn addition_type(left: &ValueType, right: &ValueType) -> (res: Option<ValueType>)
    ensures
        res == spec_addition_type(*left, *right),
{
    match (left, right) {
        (ValueType::DurationType, ValueType::DurationType) => Some(ValueType::DurationType),
        (ValueType::DateType, ValueType::DurationType) => Some(ValueType::DateType),
        (ValueType::DurationType, ValueType::DateType) => Some(ValueType::DateType),
        (ValueType::DateTimeType, ValueType::DurationType) => Some(ValueType::DateTimeType),
        (ValueType::DurationType, ValueType::DateTimeType) => Some(ValueType::DateTimeType),
        (ValueType::TimeType, ValueType::DurationType) => Some(ValueType::TimeType),
        (ValueType::DurationType, ValueType::TimeType) => Some(ValueType::TimeType),
        (ValueType::DateType, ValueType::DateTimeType) => Some(ValueType::DateTimeType),
        (ValueType::DateTimeType, ValueType::DateType) => Some(ValueType::DateTimeType),
        _ => None,
    }
}

/// What subtracting a value of type `right` from one of type `left` gives.
fn subtraction_type(left: &ValueType, right: &ValueType) -> (res: Option<ValueType>)
    ensures
        res == spec_subtraction_type(*left, *right),
{
    match (left, right) {
        (ValueType::DateType, ValueType::DateType) => Some(ValueType::DurationType),
        (ValueType::TimeType, ValueType::TimeType) => Some(ValueType::DurationType),
        (ValueType::DateTimeType, ValueType::DateTimeType) => Some(ValueType::DurationType),
        (ValueType::DateType, ValueType::DurationType) => Some(ValueType::DateType),
        (ValueType::DateTimeType, ValueType::DurationType) => Some(ValueType::DateTimeType),
        (ValueType::TimeType, ValueType::DurationType) => Some(ValueType::TimeType),
        (ValueType::DurationType, ValueType::DurationType) => Some(ValueType::DurationType),
        (ValueType::DateType, ValueType::DateTimeType) => Some(ValueType::DurationType),
        (ValueType::DateTimeType, ValueType::DateType) => Some(ValueType::DurationType),
        _ => None,
    }
}

/// The type of `left operator right` for an arithmetic operator, from the types of its
/// two sides.
pub fn link_math_operator(operator: MathOperatorEnum, left: ValueType, right: ValueType) -> (res:
    Result<ValueType, LinkingError>)
    ensures
        spec_math_link(operator, left, right, res),
{
    let undefined_side = matches!(left, ValueType::UndefinedType) || matches!(
        right,
        ValueType::UndefinedType
    );
    let numbers = matches!(left, ValueType::NumberType) && matches!(right, ValueType::NumberType);
    if undefined_side || numbers {
        return Ok(ValueType::NumberType);
    }
    match operator {
        MathOperatorEnum::Addition => {
            let left_string = matches!(left, ValueType::StringType);
            let right_string = matches!(right, ValueType::StringType);
            if left_string && right_string {
                Ok(ValueType::StringType)
            } else if right_string {
                LinkingError::expect_single_type(
                    "Left side of operator '+'",
                    left,
                    &ValueType::StringType,
                )
            } else if left_string {
                LinkingError::expect_single_type(
                    "Right side of operator '+'",
                    right,
                    &ValueType::StringType,
                )
            } else {
                match addition_type(&left, &right) {
                    Some(t) => Ok(t),
                    None => Err(
                        LinkingError::types_not_compatible(
                            Some(String::from_str("Operator '+'")),
                            left,
                            Some(arithmetic_operand_types()),
                        ),
                    ),
                }
            }
        },
        MathOperatorEnum::Subtraction => match subtraction_type(&left, &right) {
            Some(t) => Ok(t),
            None => Err(
                LinkingError::types_not_compatible(
                    Some(String::from_str("Operator '-'")),
                    left,
                    Some(arithmetic_operand_types()),
                ),
            ),
        },
        _ => {
            let same = LinkingError::expect_same_types("Operator", left, clone_type(&right));
            match same {
                Err(e) => Err(e),
                Ok(_) => LinkingError::expect_single_type("Operator", right, &ValueType::NumberType),
            }
        },
    }
}

/// The type of `left comparator right`, from the types of its two sides: a boolean where
/// both sides have the same type and the comparator applies to it; strings and booleans take
/// only `=` and `<>`, and another comparator on them is an operation not supported on that
/// type; sides of different types are an error naming `Comparator`.
pub fn link_comparator_operator(left: ValueType, comparator: ComparatorEnum, right: ValueType) -> (res:
    Result<ValueType, LinkingError>)
    ensures
        left == right && !spec_ordering_refused(left, comparator) ==> res == Ok::<
            ValueType,
            LinkingError,
        >(ValueType::BooleanType),
        left == right && spec_ordering_refused(left, comparator) ==> res is Err
            && res->Err_0.error is OperationNotSupported
            && res->Err_0.error->OperationNotSupported_0@ == spec_comparator_str(comparator)
            && res->Err_0.error->OperationNotSupported_1 == left
            && res->Err_0.error->OperationNotSupported_2 == left
            && res->Err_0.context@.len() == 0,
        left != right ==> res is Err && is_types_differ(res->Err_0, "Comparator"@, left, right),
{
    match LinkingError::expect_same_types("Comparator", left, right) {
        Err(e) => Err(e),
        Ok(t) => {
            let ordering = !matches!(comparator, ComparatorEnum::Equals | ComparatorEnum::NotEquals);
            let refused = ordering && matches!(t, ValueType::StringType | ValueType::BooleanType);
            if refused {
                let other = clone_type(&t);
                Err(LinkingError::operation_not_supported(comparator.as_str(), t, other))
            } else {
                Ok(ValueType::BooleanType)
            }
        },
    }
}

/// Whether `comparator` orders values of type `t`, where `t` only takes `=` and `<>`:
/// strings and booleans.
pub open spec fn spec_ordering_refused(t: ValueType, comparator: ComparatorEnum) -> bool {
    (t is StringType || t is BooleanType) && !(comparator is Equals || comparator is NotEquals)
}

/// Adding a duration to a point in time, or a date to a date and time, links to the same
/// type whichever side each value stands on.
pub proof fn lemma_addition_types_commute(left: ValueType, right: ValueType)
    ensures
        spec_addition_type(left, right) == spec_addition_type(right, left),
{
}

/// Moving a point in time by a duration, forward or back, keeps its kind: a date stays a
/// date, a date with a time stays one, a time of day stays one; and the time between two
/// points of the same kind is a duration.
pub proof fn lemma_moving_keeps_kind(t: ValueType)
    requires
        t is DateType || t is DateTimeType || t is TimeType,
    ensures
        spec_subtraction_type(t, ValueType::DurationType) == Some(t),
        spec_addition_type(t, ValueType::DurationType) == Some(t),
        spec_addition_type(ValueType::DurationType, t) == Some(t),
        spec_subtraction_type(t, t) == Some(ValueType::DurationType),
{
}

} // verus!
