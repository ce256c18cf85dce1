use edge_rules::errors::LinkingErrorEnum;
use edge_rules::operator_types::{link_comparator_operator, link_math_operator};
use edge_rules::operators::{ComparatorEnum, MathOperatorEnum};
use edge_rules::types::ValueType;

fn incompatible(e: LinkingErrorEnum) -> (Option<String>, ValueType, Option<Vec<ValueType>>) {
    match e {
        LinkingErrorEnum::TypesNotCompatible(s, t, e) => (s, t, e),
        other => panic!("not a type mismatch: {:?}", other),
    }
}

#[test]
fn numbers_and_unknown_sides_give_numbers() {
    for op in [
        MathOperatorEnum::Addition,
        MathOperatorEnum::Subtraction,
        MathOperatorEnum::Multiplication,
        MathOperatorEnum::Division,
        MathOperatorEnum::Power,
        MathOperatorEnum::Modulus,
    ] {
        assert_eq!(
            link_math_operator(op, ValueType::NumberType, ValueType::NumberType).unwrap(),
            ValueType::NumberType
        );
        assert_eq!(
            link_math_operator(op, ValueType::UndefinedType, ValueType::StringType).unwrap(),
            ValueType::NumberType
        );
    }
}

#[test]
fn addition_of_strings_and_points_in_time() {
    let add = |l, r| link_math_operator(MathOperatorEnum::Addition, l, r);
    assert_eq!(add(ValueType::StringType, ValueType::StringType).unwrap(), ValueType::StringType);
    assert_eq!(add(ValueType::DateType, ValueType::DurationType).unwrap(), ValueType::DateType);
    assert_eq!(add(ValueType::DurationType, ValueType::DateType).unwrap(), ValueType::DateType);
    assert_eq!(add(ValueType::TimeType, ValueType::DurationType).unwrap(), ValueType::TimeType);
    assert_eq!(
        add(ValueType::DateType, ValueType::DateTimeType).unwrap(),
        ValueType::DateTimeType
    );
    assert_eq!(
        add(ValueType::DurationType, ValueType::DurationType).unwrap(),
        ValueType::DurationType
    );

    let e = add(ValueType::NumberType, ValueType::StringType).unwrap_err();
    assert_eq!(
        incompatible(e.error),
        (
            Some("Left side of operator '+'".to_string()),
            ValueType::NumberType,
            Some(vec![ValueType::StringType])
        )
    );
    let e = add(ValueType::StringType, ValueType::DateType).unwrap_err();
    assert_eq!(
        incompatible(e.error),
        (
            Some("Right side of operator '+'".to_string()),
            ValueType::DateType,
            Some(vec![ValueType::StringType])
        )
    );
    let e = add(ValueType::DateType, ValueType::DateType).unwrap_err();
    let (subject, met, expected) = incompatible(e.error);
    assert_eq!(subject, Some("Operator '+'".to_string()));
    assert_eq!(met, ValueType::DateType);
    assert_eq!(expected.unwrap().len(), 5);
}

#[test]
fn subtraction_of_points_in_time() {
    let sub = |l, r| link_math_operator(MathOperatorEnum::Subtraction, l, r);
    assert_eq!(sub(ValueType::DateType, ValueType::DateType).unwrap(), ValueType::DurationType);
    assert_eq!(sub(ValueType::TimeType, ValueType::TimeType).unwrap(), ValueType::DurationType);
    assert_eq!(
        sub(ValueType::DateTimeType, ValueType::DateType).unwrap(),
        ValueType::DurationType
    );
    assert_eq!(sub(ValueType::DateType, ValueType::DurationType).unwrap(), ValueType::DateType);
    let e = sub(ValueType::DurationType, ValueType::DateType).unwrap_err();
    assert_eq!(incompatible(e.error).0, Some("Operator '-'".to_string()));
    let e = sub(ValueType::StringType, ValueType::StringType).unwrap_err();
    assert_eq!(incompatible(e.error).1, ValueType::StringType);
}

#[test]
fn other_operators_take_numbers() {
    let e = link_math_operator(MathOperatorEnum::Multiplication, ValueType::NumberType, ValueType::StringType)
        .unwrap_err();
    assert_eq!(
        e.error,
        LinkingErrorEnum::DifferentTypesDetected(
            Some("Operator".to_string()),
            ValueType::NumberType,
            ValueType::StringType
        )
    );
    let e = link_math_operator(MathOperatorEnum::Division, ValueType::DateType, ValueType::DateType)
        .unwrap_err();
    assert_eq!(
        incompatible(e.error),
        (Some("Operator".to_string()), ValueType::DateType, Some(vec![ValueType::NumberType]))
    );
}

#[test]
fn comparisons_need_one_type() {
    assert_eq!(
        link_comparator_operator(ValueType::DateType, ComparatorEnum::Less, ValueType::DateType)
            .unwrap(),
        ValueType::BooleanType
    );
    assert_eq!(
        link_comparator_operator(ValueType::StringType, ComparatorEnum::Equals, ValueType::StringType)
            .unwrap(),
        ValueType::BooleanType
    );
    assert_eq!(
        link_comparator_operator(ValueType::StringType, ComparatorEnum::Less, ValueType::StringType)
            .unwrap_err()
            .error,
        LinkingErrorEnum::OperationNotSupported(
            "<".to_string(),
            ValueType::StringType,
            ValueType::StringType
        )
    );
    assert_eq!(
        link_comparator_operator(
            ValueType::BooleanType,
            ComparatorEnum::GreaterEquals,
            ValueType::BooleanType
        )
        .unwrap_err()
        .error,
        LinkingErrorEnum::OperationNotSupported(
            ">=".to_string(),
            ValueType::BooleanType,
            ValueType::BooleanType
        )
    );
    let e = link_comparator_operator(ValueType::NumberType, ComparatorEnum::Equals, ValueType::StringType)
        .unwrap_err();
    assert_eq!(
        e.error,
        LinkingErrorEnum::DifferentTypesDetected(
            Some("Comparator".to_string()),
            ValueType::NumberType,
            ValueType::StringType
        )
    );
}
