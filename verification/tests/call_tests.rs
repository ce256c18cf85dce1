use edge_rules::call_checks::{check_argument_count, check_argument_type, check_context_argument};
use edge_rules::errors::LinkingErrorEnum;
use edge_rules::types::ValueType;

fn message(e: LinkingErrorEnum) -> String {
    match e {
        LinkingErrorEnum::OtherLinkingError(m) => m,
        other => panic!("not a plain linking error: {:?}", other),
    }
}

#[test]
fn argument_counts_must_match() {
    assert!(check_argument_count("greet", 2, 2).is_ok());
    let e = check_argument_count("greet", 2, 1).unwrap_err();
    assert_eq!(message(e.error), "Function greet expects 2 arguments, but 1 were provided");
    let e = check_argument_count("f", 0, 12).unwrap_err();
    assert_eq!(message(e.error), "Function f expects 0 arguments, but 12 were provided");
}

#[test]
fn a_context_cannot_be_passed_to_its_own_function() {
    let path = vec!["calendar".to_string()];
    let e = check_context_argument(&path, "calendar", "start1").unwrap_err();
    assert_eq!(
        message(e.error),
        "Cannot pass context `calendar` as argument to function `start1` defined in the same context"
    );
    assert!(check_context_argument(&path, "config", "start1").is_ok());
    let longer = vec!["calendar".to_string(), "shift".to_string()];
    assert!(check_context_argument(&longer, "calendar", "start1").is_ok());
}

#[test]
fn arguments_must_have_the_declared_type() {
    assert_eq!(
        check_argument_type("offer", "inc", ValueType::NumberType, &ValueType::NumberType)
            .unwrap(),
        ValueType::NumberType
    );
    let e = check_argument_type("offer", "inc", ValueType::StringType, &ValueType::NumberType)
        .unwrap_err();
    assert_eq!(
        e.error,
        LinkingErrorEnum::TypesNotCompatible(
            Some("Argument `offer` of function `inc`".to_string()),
            ValueType::StringType,
            Some(vec![ValueType::NumberType])
        )
    );
}
