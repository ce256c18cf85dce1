use edge_rules::errors::{LinkingError, LinkingErrorEnum};
use edge_rules::errors::RuntimeErrorEnum;
use edge_rules::expression_types::{
    cannot_filter_error, filter_item_type, filter_result_type, link_collection_item_type,
    link_if_then_else, loop_variable_type,
};
use edge_rules::link_rules::flatten_list_type;
use edge_rules::types::ValueType;

fn list(t: ValueType) -> ValueType {
    ValueType::ListType(Box::new(t))
}

#[test]
fn if_then_else_types() {
    assert_eq!(
        link_if_then_else(ValueType::BooleanType, ValueType::NumberType, Ok(ValueType::NumberType))
            .unwrap(),
        ValueType::NumberType
    );
    let e = link_if_then_else(ValueType::NumberType, ValueType::NumberType, Ok(ValueType::NumberType))
        .unwrap_err();
    assert_eq!(
        e.error,
        LinkingErrorEnum::TypesNotCompatible(
            Some("if condition".to_string()),
            ValueType::NumberType,
            Some(vec![ValueType::BooleanType])
        )
    );
    let e = link_if_then_else(ValueType::BooleanType, ValueType::NumberType, Ok(ValueType::StringType))
        .unwrap_err();
    assert_eq!(
        e.error,
        LinkingErrorEnum::DifferentTypesDetected(
            Some("`then` and `else` expressions".to_string()),
            ValueType::NumberType,
            ValueType::StringType
        )
    );
    let else_failed = LinkingError::other_error("else broke".to_string());
    let e = link_if_then_else(ValueType::BooleanType, ValueType::NumberType, Err(else_failed))
        .unwrap_err();
    assert_eq!(e.error, LinkingErrorEnum::OtherLinkingError("else broke".to_string()));
}

#[test]
fn collection_item_types_merge_in_order() {
    assert_eq!(link_collection_item_type(&Vec::new()).unwrap(), ValueType::UndefinedType);
    assert_eq!(
        link_collection_item_type(&vec![ValueType::NumberType, ValueType::NumberType]).unwrap(),
        ValueType::NumberType
    );
    assert_eq!(
        link_collection_item_type(&vec![ValueType::UndefinedType, ValueType::StringType]).unwrap(),
        ValueType::StringType
    );
    assert!(link_collection_item_type(&vec![
        ValueType::NumberType,
        ValueType::StringType,
        ValueType::NumberType
    ])
    .is_err());
}

#[test]
fn loop_variables_take_item_types() {
    assert_eq!(loop_variable_type(&list(ValueType::NumberType)).unwrap(), ValueType::NumberType);
    assert_eq!(
        loop_variable_type(&list(list(ValueType::DateType))).unwrap(),
        ValueType::DateType
    );
    assert_eq!(loop_variable_type(&ValueType::RangeType).unwrap(), ValueType::NumberType);
    let e = loop_variable_type(&ValueType::StringType).unwrap_err();
    assert_eq!(
        e.error,
        LinkingErrorEnum::OtherLinkingError("Cannot iterate through non list type `string`".to_string())
    );
}

#[test]
fn filters_take_items_of_lists() {
    assert_eq!(filter_item_type("nums", list(ValueType::NumberType)).unwrap(), ValueType::NumberType);
    assert_eq!(
        filter_item_type("nested", list(list(ValueType::DateType))).unwrap(),
        ValueType::DateType
    );
    let e = filter_item_type("x", ValueType::NumberType).unwrap_err();
    assert_eq!(
        e.error,
        LinkingErrorEnum::TypesNotCompatible(
            Some("Filter subject `x`".to_string()),
            ValueType::NumberType,
            Some(vec![list(ValueType::UndefinedType)])
        )
    );
    let nums = list(ValueType::NumberType);
    assert_eq!(filter_result_type(&nums, &ValueType::BooleanType), nums);
    assert_eq!(filter_result_type(&nums, &ValueType::RangeType), nums);
    assert_eq!(filter_result_type(&nums, &ValueType::NumberType), ValueType::NumberType);
    let e = cannot_filter_error("value", &ValueType::StringType);
    assert_eq!(
        e.error,
        RuntimeErrorEnum::EvalError("Cannot filter 'value' because data type is string and not an array".to_string())
    );
}

#[test]
fn nested_list_types_flatten() {
    assert_eq!(flatten_list_type(list(list(ValueType::TimeType))), ValueType::TimeType);
    assert_eq!(flatten_list_type(ValueType::StringType), ValueType::StringType);
}
