use std::collections::VecDeque;

use edge_rules::annotations::{AnnotationEnum, EHitPolicy, EMethod};
use edge_rules::builtins::{lookup_built_in_function, EFunctionType};
use edge_rules::char_stream::CharStream;
use edge_rules::duration::DurationValue;
use edge_rules::duration_order::{eval_max_durations, eval_min_durations};
use edge_rules::duration_totals::{eval_sum_durations, operate_duration_values, DurationTotal};
use edge_rules::errors::{
    GeneralStackedError, LinkingErrorEnum, ParseErrorEnum, RuntimeErrorEnum,
};
use edge_rules::names::{DuplicateNameError, NameKind};
use edge_rules::node_data::{NodeData, NodeDataEnum};
use edge_rules::operators::{calc_level, ComparatorEnum, EPriorities, MathOperatorEnum};
use edge_rules::portable::{split_path, PortableError};
use edge_rules::errors::{into_valid, is_linked};
use edge_rules::eval_errors::{
    clean_method_name, config_error, ensure_single_argument, EvalError, ParseErrors,
};
use edge_rules::link_rules::{merge_collection_types, merge_item_type};
use edge_rules::types::{ComplexTypeRef, SpecialValueEnum, ValueOrSv, ValueType};
use edge_rules::utils::{
    array_to_code_sep, bracket_unwrap, capitalize, context_unwrap, to_display, to_string, Line,
    Lines,
};

type RuntimeError = GeneralStackedError<RuntimeErrorEnum>;
type LinkingError = GeneralStackedError<LinkingErrorEnum>;

fn s(text: &str) -> String {
    text.to_string()
}

#[test]
fn duration_iso_strings() {
    assert_eq!(DurationValue::YearsMonths { months: 18 }.to_iso_string(), "P1Y6M");
    assert_eq!(DurationValue::YearsMonths { months: -12 }.to_iso_string(), "-P1Y");
    assert_eq!(DurationValue::DaysTime { seconds: 183600 }.to_iso_string(), "P2DT3H");
    assert_eq!(DurationValue::DaysTime { seconds: 2700 }.to_iso_string(), "PT45M");
    assert_eq!(DurationValue::DaysTime { seconds: 0 }.to_iso_string(), "PT0S");
    assert_eq!(DurationValue::YearsMonths { months: 0 }.to_iso_string(), "PT0S");
    assert_eq!(DurationValue::Combined { months: 13, seconds: 90061 }.to_iso_string(), "P1Y1M1DT1H1M1S");
}

#[test]
fn duration_builders() {
    assert_eq!(DurationValue::ym(1, 6, false), DurationValue::YearsMonths { months: 18 });
    assert_eq!(DurationValue::ym(1, 6, true), DurationValue::YearsMonths { months: -18 });
    assert_eq!(DurationValue::dt(1, 2, 3, 4, false), DurationValue::DaysTime { seconds: 93784 });
    assert_eq!(DurationValue::dt_from_total_seconds(60, true), DurationValue::DaysTime { seconds: -60 });
    assert_eq!(DurationValue::combined(0, 0, 1, 0, 0, 0, false), DurationValue::DaysTime { seconds: 86400 });
    assert_eq!(DurationValue::combined(1, 0, 0, 0, 0, 0, false), DurationValue::YearsMonths { months: 12 });
    assert_eq!(
        DurationValue::combined(0, 1, 0, 0, 0, 1, true),
        DurationValue::Combined { months: -1, seconds: -1 }
    );
    assert!(DurationValue::DaysTime { seconds: 0 }.is_zero());
    assert!(!DurationValue::Combined { months: 0, seconds: 1 }.is_zero());
    assert_eq!(DurationValue::Combined { months: 2, seconds: 5 }.components(), (2, 5));
    assert!(DurationValue::from_components(1, -1).is_err());
    assert_eq!(DurationValue::from_components(0, 5).unwrap(), DurationValue::DaysTime { seconds: 5 });
}

#[test]
fn duration_arithmetic() {
    let a = DurationValue::DaysTime { seconds: 100 };
    let b = DurationValue::DaysTime { seconds: 40 };
    assert_eq!(
        operate_duration_values(&MathOperatorEnum::Addition, &a, &b).unwrap(),
        DurationValue::DaysTime { seconds: 140 }
    );
    assert_eq!(
        operate_duration_values(&MathOperatorEnum::Subtraction, &a, &a).unwrap(),
        DurationValue::DaysTime { seconds: 0 }
    );
    let e = operate_duration_values(&MathOperatorEnum::Multiplication, &a, &b).unwrap_err();
    assert_eq!(
        e.error,
        RuntimeErrorEnum::EvalError(s("Unsupported operator '*' for duration values"))
    );
    let m = DurationValue::YearsMonths { months: 1 };
    let e = operate_duration_values(&MathOperatorEnum::Subtraction, &m, &a).unwrap_err();
    assert_eq!(
        e.error,
        RuntimeErrorEnum::EvalError(s("Cannot represent duration with mixed month and day/time signs"))
    );
}

#[test]
fn duration_sums_and_extremes() {
    let values = vec![
        DurationValue::DaysTime { seconds: 30 },
        DurationValue::DaysTime { seconds: 90 },
        DurationValue::DaysTime { seconds: -10 },
    ];
    assert_eq!(
        eval_sum_durations(&values).unwrap(),
        ValueOrSv::Value(DurationValue::DaysTime { seconds: 110 })
    );
    assert_eq!(
        eval_max_durations(&values).unwrap(),
        ValueOrSv::Value(DurationValue::DaysTime { seconds: 90 })
    );
    assert_eq!(
        eval_min_durations(&values).unwrap(),
        ValueOrSv::Value(DurationValue::DaysTime { seconds: -10 })
    );
    let empty: Vec<DurationValue> = Vec::new();
    assert_eq!(eval_max_durations(&empty).unwrap(), ValueOrSv::Sv(SpecialValueEnum::Missing));
    let mixed = vec![DurationValue::DaysTime { seconds: 30 }, DurationValue::YearsMonths { months: 1 }];
    assert!(eval_max_durations(&mixed).is_err());
    assert!(eval_sum_durations(&mixed).is_err());
    assert!(DurationTotal::from_value(&DurationValue::Combined { months: 1, seconds: 1 }).is_none());
}

#[test]
fn linking_messages() {
    let e = LinkingErrorEnum::TypesNotCompatible(
        Some(s("Argument")),
        ValueType::StringType,
        Some(vec![ValueType::NumberType, ValueType::DateType]),
    );
    assert_eq!(e.to_message(), "[link] Argument type 'string', expected 'number or date'");
    let e = LinkingErrorEnum::TypesNotCompatible(None, ValueType::StringType, None);
    assert_eq!(e.to_message(), "Unexpected type 'string'");
    let e = LinkingErrorEnum::DifferentTypesDetected(None, ValueType::NumberType, ValueType::BooleanType);
    assert_eq!(
        e.to_message(),
        "[link] Operation is not supported for different types: number and boolean"
    );
    let e = LinkingErrorEnum::DifferentTypesDetected(
        Some(s("+")),
        ValueType::NumberType,
        ValueType::ListType(Box::new(ValueType::NumberType)),
    );
    assert_eq!(e.to_message(), "[link] + types `number` and `list of number` must match");
    assert_eq!(
        LinkingErrorEnum::FunctionNotFound(s("foo")).to_message(),
        "[link] Function 'foo' not found"
    );
    assert_eq!(
        LinkingErrorEnum::FieldNotFound(s("Root"), s("x")).to_message(),
        "[link] Field 'x' not found in Root"
    );
    assert_eq!(
        LinkingErrorEnum::CyclicReference(s("Root"), s("x")).to_message(),
        "[link] Field Root.x appears in a cyclic reference loop"
    );
    assert_eq!(LinkingErrorEnum::NotLinkedYet.to_message(), "[link] Not linked yet");
    assert_eq!(
        LinkingErrorEnum::OperationNotSupported(s("+"), ValueType::DateType, ValueType::TimeType)
            .to_message(),
        "[link] Operation '+' not supported for types 'date' and 'time'"
    );
}

#[test]
fn runtime_and_parse_messages() {
    assert_eq!(RuntimeErrorEnum::EvalError(s("boom")).to_message(), "[runtime] boom");
    assert_eq!(
        RuntimeErrorEnum::TypeNotSupported(ValueType::RangeType).to_message(),
        "[runtime] Type 'range' is not supported"
    );
    assert_eq!(
        RuntimeErrorEnum::RuntimeFieldNotFound(s("Root"), s("x")).to_message(),
        "[runtime] Field 'x' not found in Root"
    );
    assert_eq!(RuntimeErrorEnum::Unlinked.to_message(), "[runtime] Unlinked");
    assert_eq!(ParseErrorEnum::Empty.to_message(), "[parse] -Empty-");
    assert_eq!(ParseErrorEnum::UnknownError(s("[parse] x")).to_message(), "[parse] x");
    assert_eq!(ParseErrorEnum::UnknownError(s("x")).to_message(), "[parse] x");
    assert_eq!(
        ParseErrorEnum::UnexpectedLiteral(s("a"), Some(s("b"))).to_message(),
        "[parse] Unexpected 'a', expected 'b'"
    );
    assert_eq!(ParseErrorEnum::MissingLiteral(s(")")).to_message(), "[parse] Missing ')'");
    assert_eq!(
        ParseErrorEnum::FunctionWrongNumberOfArguments(s("f"), EFunctionType::Custom(2), 3).to_message(),
        "[parse] Function 'f' expected 2 arguments, but got 3"
    );
    assert_eq!(
        ParseErrorEnum::FunctionWrongNumberOfArguments(s("f"), EFunctionType::Binary, 1).to_message(),
        "[parse] Binary function 'f' expected 2 arguments, but got 1"
    );
    assert_eq!(
        ParseErrorEnum::FunctionWrongNumberOfArguments(s("f"), EFunctionType::Unary, 0).to_message(),
        "[parse] Function 'f' got no arguments"
    );
    let joined = ParseErrorEnum::MissingLiteral(s(")")).before(ParseErrorEnum::UnknownError(s("a")));
    assert_eq!(joined, ParseErrorEnum::UnknownError(s("[parse] a → [parse] Missing ')'")));
    let kept = ParseErrorEnum::MissingLiteral(s(")")).before(ParseErrorEnum::Empty);
    assert_eq!(kept, ParseErrorEnum::MissingLiteral(s(")")));
}

#[test]
fn stacked_errors_show_their_contexts() {
    let mut e = RuntimeError::eval_error(s("boom"));
    assert_eq!(e.to_message(), "[runtime] boom");
    e.context.push(s("first"));
    e.context.push(s("second"));
    assert_eq!(e.to_message(), "[runtime] boom\nContext:\n  1. first\n  2. second\n");
}

#[test]
fn linking_errors_surface_while_evaluating() {
    let mut e = LinkingError::field_not_found("Root", "x");
    e.context.push(s("here"));
    let r = RuntimeError::into_runtime(e);
    assert_eq!(r.error, RuntimeErrorEnum::RuntimeFieldNotFound(s("Root"), s("x")));
    assert_eq!(r.context, vec![s("here")]);
    let r = RuntimeError::into_runtime(LinkingError::not_linked());
    assert_eq!(r.error, RuntimeErrorEnum::Unlinked);
    let r = RuntimeError::into_runtime(LinkingError::other_error(s("bad")));
    assert_eq!(r.error, RuntimeErrorEnum::EvalError(s("[link] bad")));
    let r = RuntimeError::from_parse_error(ParseErrorEnum::Empty);
    assert_eq!(r.error, RuntimeErrorEnum::EvalError(s("[parse] -Empty-")));
}

#[test]
fn type_expectations() {
    let ok = LinkingError::expect_type(None, ValueType::NumberType, &[ValueType::StringType, ValueType::NumberType]);
    assert_eq!(ok.unwrap(), ValueType::NumberType);
    let err = LinkingError::expect_type(Some(s("arg")), ValueType::DateType, &[ValueType::StringType]).unwrap_err();
    assert_eq!(
        err.error,
        LinkingErrorEnum::TypesNotCompatible(Some(s("arg")), ValueType::DateType, Some(vec![ValueType::StringType]))
    );
    let list = ValueType::ListType(Box::new(ValueType::StringType));
    assert_eq!(LinkingError::expect_array_type(None, list).unwrap(), ValueType::StringType);
    assert!(LinkingError::expect_array_type(None, ValueType::StringType).is_err());
    assert_eq!(
        LinkingError::expect_single_type("x", ValueType::BooleanType, &ValueType::BooleanType).unwrap(),
        ValueType::BooleanType
    );
    let err = LinkingError::expect_same_types("+", ValueType::NumberType, ValueType::StringType).unwrap_err();
    assert_eq!(
        err.error,
        LinkingErrorEnum::DifferentTypesDetected(Some(s("+")), ValueType::NumberType, ValueType::StringType)
    );
    assert_eq!(LinkingError::expect_same_item_types("list", &[]).unwrap(), ValueType::UndefinedType);
    let err = LinkingError::expect_same_item_types(
        "list",
        &[ValueType::NumberType, ValueType::NumberType, ValueType::DateType, ValueType::TimeType],
    )
    .unwrap_err();
    assert_eq!(
        err.error,
        LinkingErrorEnum::DifferentTypesDetected(Some(s("list")), ValueType::NumberType, ValueType::DateType)
    );
}

#[test]
fn type_names_read_back() {
    assert_eq!(ValueType::DateTimeType.to_type_string(), "date and time");
    assert_eq!(ValueType::ListType(Box::new(ValueType::NumberType)).to_type_string(), "list of number");
    assert_eq!(
        ValueType::try_from("list of string").unwrap(),
        ValueType::ListType(Box::new(ValueType::StringType))
    );
    assert_eq!(
        ValueType::try_from("list of list of number").unwrap(),
        ValueType::ListType(Box::new(ValueType::NumberType))
    );
    assert_eq!(ValueType::try_from("duration").unwrap(), ValueType::DurationType);
    assert_eq!(ValueType::try_from("range").unwrap_err(), ParseErrorEnum::UnknownType(s("range")));
    assert_eq!(SpecialValueEnum::NotFound.as_str(), "NotFound");
}

#[test]
fn operators_read_back() {
    assert_eq!(ComparatorEnum::try_from("<=").unwrap(), ComparatorEnum::LessEquals);
    assert_eq!(ComparatorEnum::try_from("<>").unwrap(), ComparatorEnum::NotEquals);
    assert_eq!(ComparatorEnum::GreaterEquals.as_str(), ">=");
    assert!(ComparatorEnum::try_from("=>").is_err());
    assert_eq!(MathOperatorEnum::try_from("×").unwrap(), MathOperatorEnum::Multiplication);
    assert_eq!(MathOperatorEnum::try_from("÷").unwrap(), MathOperatorEnum::Division);
    assert_eq!(MathOperatorEnum::Power.as_str(), "^");
    assert_eq!(
        MathOperatorEnum::try_from("**").unwrap_err(),
        ParseErrorEnum::UnknownParseError(s("Unknown operator: **"))
    );
    let mut stream = CharStream::new("<= 5");
    assert_eq!(ComparatorEnum::parse(&mut stream), Some(ComparatorEnum::LessEquals));
    assert_eq!(stream.peek(), Some(' '));
    let mut stream = CharStream::new("=5");
    assert_eq!(ComparatorEnum::parse(&mut stream), Some(ComparatorEnum::Equals));
    assert_eq!(stream.peek(), Some('5'));
    assert_eq!(EPriorities::ComparatorPriority.value(), 15);
    assert_eq!(calc_level(EPriorities::Plus.value(), 2), 221);
}

#[test]
fn built_in_lookup() {
    assert_eq!(lookup_built_in_function("max"), Some(EFunctionType::Multi));
    assert_eq!(lookup_built_in_function("no_such_function"), None);
}

#[test]
fn char_stream_reads_words() {
    let mut stream = CharStream::new("  abc1 def");
    stream.skip_whitespace();
    assert_eq!(stream.get_alphanumeric(), "abc1");
    assert_eq!(stream.next(), Some(' '));
    assert_eq!(stream.get_alphanumeric(), "def");
    assert_eq!(stream.next(), None);
}

#[test]
fn annotations() {
    assert_eq!(
        AnnotationEnum::from_parts("DecisionTable", Some(vec![s("first-hit")])).unwrap(),
        AnnotationEnum::DecisionTableAnnotation(EHitPolicy::FirstHit)
    );
    assert_eq!(
        AnnotationEnum::from_parts("DecisionTable", Some(vec![s("multi-hit")])).unwrap(),
        AnnotationEnum::DecisionTableAnnotation(EHitPolicy::MultiHit)
    );
    assert_ne!(
        AnnotationEnum::from_parts("DecisionTable", Some(vec![s("first-hit")])).unwrap(),
        AnnotationEnum::DecisionTableAnnotation(EHitPolicy::MultiHit)
    );
    assert_eq!(
        AnnotationEnum::from_parts("Service", None).unwrap(),
        AnnotationEnum::ServiceAnnotation(EMethod::GET)
    );
    assert_eq!(
        AnnotationEnum::from_parts("DecisionTable", Some(vec![s("any-hit")])).unwrap_err(),
        ParseErrorEnum::UnknownParseError(s("Invalid hit policy any-hit for DecisionTable"))
    );
    assert_eq!(
        AnnotationEnum::from_parts("Other", None).unwrap_err(),
        ParseErrorEnum::UnknownParseError(s("Unknown annotation: Other"))
    );
    assert_eq!(
        AnnotationEnum::DecisionTableAnnotation(EHitPolicy::FirstHit).to_code(),
        "@DecisionTable(\"\"first-hit\"\")"
    );
    let list = vec![
        AnnotationEnum::ServiceAnnotation(EMethod::GET),
        AnnotationEnum::DecisionTableAnnotation(EHitPolicy::MultiHit),
    ];
    assert_eq!(
        AnnotationEnum::get_decision_table(&list),
        Some(&AnnotationEnum::DecisionTableAnnotation(EHitPolicy::MultiHit))
    );
}

#[test]
fn duplicate_names() {
    assert_eq!(NameKind::UserType.as_str(), "user type");
    let e = DuplicateNameError::new(NameKind::Field, s("value"));
    assert_eq!(e.to_message(), "Duplicate field 'value'");
}

#[test]
fn node_locks_detect_reference_loops() {
    let mut node = NodeData::new(NodeDataEnum::Root);
    assert!(!node.is_field_locked("a"));
    assert!(node.lock_field("a", "Root").is_ok());
    assert!(node.is_field_locked("a"));
    let err = node.lock_field("a", "Root").unwrap_err();
    assert_eq!(err.error, LinkingErrorEnum::CyclicReference(s("Root"), s("a")));
    node.unlock_field("a");
    assert!(!node.is_field_locked("a"));
    assert!(node.lock_field("a", "Root").is_ok());
}

#[test]
fn nodes_attach_children() {
    let mut parent = NodeData::new(NodeDataEnum::Root);
    let mut child = NodeData::new(NodeDataEnum::Child(s("calendar"), None));
    NodeData::attach_child(&mut parent, 0, &mut child, 1);
    assert_eq!(parent.get_child("calendar"), Some(1));
    assert_eq!(child.get_assigned_to_field(), Some(s("calendar")));
    assert_eq!(child.node_type().get_parent(), Some(0));
    assert_eq!(child.node_type().to_code(), "calendar");
    assert_eq!(NodeDataEnum::Internal(None).to_code(), "#child");
    assert_eq!(NodeDataEnum::Root.to_code(), "");
    let mut inner = NodeData::new(NodeDataEnum::Isolated);
    NodeData::attach_child(&mut parent, 0, &mut inner, 2);
    assert_eq!(parent.get_childs().len(), 1);
    let fixed = NodeData::new_fixed(vec![(s("a"), 3), (s("b"), 4)], NodeDataEnum::Root);
    assert_eq!(fixed.get_child("b"), Some(4));
    assert_eq!(fixed.get_child("c"), None);
}

#[test]
fn text_helpers() {
    assert_eq!(to_display(&[s("a"), s("b"), s("c")], ", "), "a, b, c");
    assert_eq!(array_to_code_sep(vec![s("x")], "; "), "x");
    let mut deque = VecDeque::new();
    deque.push_back(s("ab"));
    deque.push_back(s("cd"));
    assert_eq!(to_string(&deque), "abcd");
    assert_eq!(bracket_unwrap(s("(1 + 2)")), "1 + 2");
    assert_eq!(bracket_unwrap(s("(1) + (2)")), "1) + (2");
    assert_eq!(bracket_unwrap(s("(1) + (2")), "(1) + (2");
    assert_eq!(bracket_unwrap(s("1 + 2")), "1 + 2");
    assert_eq!(context_unwrap(s("{_return : x}")), "x");
    assert_eq!(context_unwrap(s("{a : 1}")), "a : 1");
    assert_eq!(capitalize(s("hello")), "Hello");
    assert_eq!(capitalize(s("")), "");
}

#[test]
fn lines_are_indented_by_level() {
    let mut lines = Lines::new();
    lines.add_str("{");
    lines.tab();
    let mut line = Line::new();
    line.add("a : ").add("1");
    lines.add(line);
    lines.back();
    lines.add_str("}");
    assert_eq!(lines.to_text(), "{\n   a : 1\n}\n");
    let mut deep = Lines::new();
    for _ in 0..7 {
        deep.tab();
    }
    deep.add_str("x");
    assert_eq!(deep.to_text(), format!("{}x\n", " ".repeat(15)));
}

#[test]
fn paths_split_into_context_and_name() {
    let (context, name) = split_path(" calendar . config.start ").unwrap();
    assert_eq!(context, Some(vec![s("calendar"), s("config")]));
    assert_eq!(name, "start");
    let (context, name) = split_path("value").unwrap();
    assert_eq!(context, None);
    assert_eq!(name, "value");
    assert_eq!(split_path("   ").unwrap_err().into_message(), "Path cannot be empty");
    assert_eq!(split_path("a..b").unwrap_err().into_message(), "Invalid path 'a..b'");
    assert_eq!(PortableError::new(s("x")).to_message(), "x");
}

#[test]
fn collection_item_types_merge() {
    let list = |t: ValueType| ValueType::ListType(Box::new(t));
    assert_eq!(merge_collection_types(ValueType::UndefinedType, ValueType::DateType).unwrap(), ValueType::DateType);
    assert_eq!(merge_collection_types(ValueType::DateType, ValueType::UndefinedType).unwrap(), ValueType::DateType);
    assert_eq!(
        merge_collection_types(list(ValueType::UndefinedType), list(ValueType::NumberType)).unwrap(),
        list(ValueType::NumberType)
    );
    let e = merge_collection_types(ValueType::NumberType, ValueType::StringType).unwrap_err();
    assert_eq!(
        e.error,
        LinkingErrorEnum::OtherLinkingError(s("Only homogeneous arrays are supported. Found`number` and `string`"))
    );
    let mut target = ValueType::UndefinedType;
    assert!(merge_item_type(&mut target, ValueType::TimeType).is_ok());
    assert_eq!(target, ValueType::TimeType);
    assert!(merge_item_type(&mut target, ValueType::UndefinedType).is_ok());
    assert_eq!(target, ValueType::TimeType);
    let e = merge_item_type(&mut target, ValueType::DateType).unwrap_err();
    assert_eq!(e.error, RuntimeErrorEnum::TypeNotSupported(ValueType::DateType));
    assert_eq!(target, ValueType::TimeType);
}

#[test]
fn evaluated_arguments_are_all_valid_or_the_first_error() {
    let ok: Vec<Result<i64, RuntimeError>> = vec![Ok(1), Ok(2)];
    assert_eq!(into_valid(ok).unwrap(), vec![1, 2]);
    let bad: Vec<Result<i64, RuntimeError>> = vec![
        Ok(1),
        Err(RuntimeError::eval_error(s("first"))),
        Err(RuntimeError::eval_error(s("second"))),
    ];
    assert_eq!(into_valid(bad).unwrap_err().error, RuntimeErrorEnum::EvalError(s("first")));
}

#[test]
fn type_references_are_written_back() {
    let t = ComplexTypeRef::List(Box::new(ComplexTypeRef::Alias(s("Customer"))));
    assert_eq!(t.to_code(), "list of Customer");
    assert!(t.contains_alias());
    let p = ComplexTypeRef::List(Box::new(ComplexTypeRef::Primitive(ValueType::NumberType)));
    assert_eq!(p.to_code(), "list of number");
    assert!(!p.contains_alias());
    assert_eq!(p.clone(), p);
}

#[test]
fn errors_collect_contexts() {
    let e = RuntimeError::eval_error(s("late")).with_context(s("in field a"));
    assert_eq!(e.context, vec![s("in field a")]);
    let mut earlier = RuntimeError::eval_error(s("early"));
    earlier.context.push(s("in field b"));
    let joined = e.before_happened(earlier);
    assert_eq!(joined.error, RuntimeErrorEnum::EvalError(s("late")));
    assert_eq!(joined.context, vec![s("in field a"), s("in field b"), s("[runtime] early")]);
    let l = LinkingError::not_linked().before_happened(LinkingError::field_not_found("Root", "x"));
    assert_eq!(l.context, vec![s("[link] Field 'x' not found in Root")]);
}

#[test]
fn evaluation_errors_are_shown() {
    let errors = ParseErrors::new(vec![ParseErrorEnum::MissingLiteral(s(")")), ParseErrorEnum::Empty]);
    assert_eq!(errors.errors().len(), 2);
    assert_eq!(errors.to_message(), "[parse] Missing ')'; [parse] -Empty-");
    let e = EvalError::from_parse_error(ParseErrorEnum::UnknownType(s("x")));
    assert_eq!(e.to_message(), "[parse] x");
    let e = EvalError::from_runtime_error(RuntimeError::eval_error(s("boom")).with_context(s("here")));
    assert_eq!(e.to_message(), "[runtime] boom\nContext:\n  1. here\n");
    let e = EvalError::from_linking_error(LinkingError::not_linked());
    assert_eq!(e.to_message(), "[runtime] [link] Not linked yet");
    assert_eq!(config_error(s("bad")).to_message(), "[runtime] bad");
    assert!(ensure_single_argument("svc.run", 1).is_ok());
    assert_eq!(
        ensure_single_argument("svc.run", 2).unwrap_err().to_message(),
        "[runtime] Decision service method 'svc.run' must declare exactly one argument, found 2"
    );
    assert_eq!(clean_method_name("  svc.run \t").unwrap(), "svc.run");
    assert_eq!(
        clean_method_name("   ").unwrap_err().to_message(),
        "[runtime] Decision service method name cannot be empty"
    );
}

#[test]
fn link_results_are_settled_unless_not_linked_yet() {
    assert!(is_linked::<ValueType>(&Ok(ValueType::NumberType)));
    assert!(is_linked::<ValueType>(&Err(LinkingError::other_error(s("broken")))));
    assert!(!is_linked::<ValueType>(&Err(LinkingError::not_linked())));
}

#[test]
fn duration_kinds_do_not_mix() {
    assert!(edge_rules::iso_parse::parse_duration_iso8601("P1YT2H").is_none());
    assert!(edge_rules::iso_parse::parse_duration_iso8601("P1MT5M").is_none());
    assert!(edge_rules::iso_parse::parse_duration_iso8601("P2MT1S").is_none());
    assert_eq!(
        edge_rules::iso_parse::parse_duration_iso8601("P1YT").unwrap(),
        DurationValue::YearsMonths { months: 12 }
    );
    assert_eq!(
        edge_rules::iso_parse::parse_duration_iso8601("PT2H").unwrap(),
        DurationValue::DaysTime { seconds: 7200 }
    );
}
