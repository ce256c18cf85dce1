use edge_rules::context_tree::{
    browse_path, continue_browse, link_context, link_context_types, link_variable, BrowseResult, ContextNode, ContextTree,
    FieldContent, FieldExpression, Item, LinkedType,
};
use edge_rules::errors::{LinkingError, LinkingErrorEnum};
use edge_rules::node_data::{NodeData, NodeDataEnum};
use edge_rules::numbers::ExactNumber;
use edge_rules::temporal::CalendarDate;
use edge_rules::types::{ValueOrSv, ValueType};
use edge_rules::values::ValueEnum;

fn s(text: &str) -> String {
    text.to_string()
}

fn path(names: &[&str]) -> Vec<String> {
    names.iter().map(|n| s(n)).collect()
}

fn node(node_type: NodeDataEnum, fields: Vec<(String, FieldContent)>) -> ContextNode {
    ContextNode {
        node: NodeData::new(node_type),
        fields,
        parameters: Vec::new(),
        context_type: None,
    }
}

fn typed(t: ValueType, reads: &[&[&str]]) -> FieldContent {
    FieldContent::Expression(FieldExpression::Typed(t, reads.iter().map(|r| path(r)).collect()))
}

fn number_reading(reads: &[&[&str]]) -> FieldContent {
    typed(ValueType::NumberType, reads)
}

fn cyclic(object: &str, field: &str) -> LinkingErrorEnum {
    LinkingErrorEnum::CyclicReference(s(object), s(field))
}

fn error_of<T: std::fmt::Debug>(res: Result<T, LinkingError>) -> LinkingErrorEnum {
    res.unwrap_err().error
}

#[test]
fn test_problems() {
    // { record : { age : 18; value : 1 + 2 }}
    let tree = ContextTree {
        nodes: vec![
            node(NodeDataEnum::Root, vec![(s("record"), FieldContent::Object(1))]),
            node(
                NodeDataEnum::Child(s("record"), Some(0)),
                vec![(s("age"), number_reading(&[])), (s("value"), number_reading(&[]))],
            ),
        ],
    };
    assert_eq!(
        link_variable(&tree, 0, &path(&["record", "value"])).unwrap(),
        LinkedType::Value(ValueType::NumberType)
    );

    // value : value + 1
    let tree = ContextTree {
        nodes: vec![node(NodeDataEnum::Root, vec![(s("value"), number_reading(&[&["value"]]))])],
    };
    assert_eq!(error_of(link_context(&tree, 0)), cyclic("Root", "value"));

    // { record1 : 15 + record2; record2 : 7 + record3; record3 : record1 * 10 }
    let tree = ContextTree {
        nodes: vec![node(
            NodeDataEnum::Root,
            vec![
                (s("record1"), number_reading(&[&["record2"]])),
                (s("record2"), number_reading(&[&["record3"]])),
                (s("record3"), number_reading(&[&["record1"]])),
            ],
        )],
    };
    assert_eq!(error_of(link_context(&tree, 0)), cyclic("Root", "record1"));

    // { record1 : { age : 18}; record2 : record1.age + record1.age}
    let tree = ContextTree {
        nodes: vec![
            node(
                NodeDataEnum::Root,
                vec![
                    (s("record1"), FieldContent::Object(1)),
                    (s("record2"), number_reading(&[&["record1", "age"], &["record1", "age"]])),
                ],
            ),
            node(NodeDataEnum::Child(s("record1"), Some(0)), vec![(s("age"), number_reading(&[]))]),
        ],
    };
    assert!(link_context(&tree, 0).is_ok());
    assert_eq!(
        link_variable(&tree, 0, &path(&["record2"])).unwrap(),
        LinkedType::Value(ValueType::NumberType)
    );

    // { p : [{a:1},5] }: the list links with no error
    let tree = ContextTree {
        nodes: vec![node(
            NodeDataEnum::Root,
            vec![(s("p"), typed(ValueType::ListType(Box::new(ValueType::UndefinedType)), &[]))],
        )],
    };
    assert!(link_context(&tree, 0).is_ok());
}

fn nested_tree() -> ContextTree {
    // { limit : 10; order : { total : limit; when : <date>; copy : when } }
    ContextTree {
        nodes: vec![
            node(
                NodeDataEnum::Root,
                vec![(s("limit"), number_reading(&[])), (s("order"), FieldContent::Object(1))],
            ),
            node(
                NodeDataEnum::Child(s("order"), Some(0)),
                vec![
                    (s("total"), FieldContent::Expression(FieldExpression::Alias(path(&["limit"])))),
                    (s("when"), FieldContent::Definition(ValueType::DateType)),
                    (s("copy"), FieldContent::Expression(FieldExpression::Alias(path(&["when"])))),
                ],
            ),
        ],
    }
}

#[test]
fn variables_link_through_parents_and_members() {
    let tree = nested_tree();
    assert_eq!(
        link_variable(&tree, 1, &path(&["limit"])).unwrap(),
        LinkedType::Value(ValueType::NumberType)
    );
    assert_eq!(
        link_variable(&tree, 1, &path(&["total"])).unwrap(),
        LinkedType::Value(ValueType::NumberType)
    );
    assert_eq!(
        link_variable(&tree, 0, &path(&["order", "when", "year"])).unwrap(),
        LinkedType::Value(ValueType::NumberType)
    );
    assert_eq!(
        link_variable(&tree, 1, &path(&["copy", "month"])).unwrap(),
        LinkedType::Value(ValueType::NumberType)
    );
    assert_eq!(
        link_variable(&tree, 1, &path(&["order", "when"])).unwrap(),
        LinkedType::Value(ValueType::DateType)
    );
    assert_eq!(link_variable(&tree, 0, &path(&["order"])).unwrap(), LinkedType::Object(1));
}

#[test]
fn undefined_variables_are_reported() {
    let tree = nested_tree();
    assert_eq!(
        error_of(link_variable(&tree, 1, &path(&["missing"]))),
        LinkingErrorEnum::FieldNotFound(s("Root"), s("missing"))
    );
    assert_eq!(
        error_of(link_variable(&tree, 1, &path(&["order", "missing"]))),
        LinkingErrorEnum::FieldNotFound(s("Root.order"), s("missing"))
    );
    assert_eq!(
        error_of(link_variable(&tree, 1, &path(&["order", "when", "hour"]))),
        LinkingErrorEnum::OtherLinkingError(s("Cannot access 'hour' from 'date' definition"))
    );
    // a path of several names that cannot be browsed from the root is left for later
    assert_eq!(
        link_variable(&tree, 0, &path(&["nothing", "here"])).unwrap(),
        LinkedType::Value(ValueType::UndefinedType)
    );
}

#[test]
fn browsing_stops_on_expressions() {
    let tree = nested_tree();
    match browse_path(&tree, 0, &path(&["order", "total"])).unwrap() {
        BrowseResult::Found(1, Item::Expression(1, 0)) => {}
        other => panic!("unexpected {:?}", other),
    }
    match browse_path(&tree, 1, &path(&["copy", "year"])).unwrap() {
        BrowseResult::OnExpression(1, 2, 1) => {}
        other => panic!("unexpected {:?}", other),
    }
    match browse_path(&tree, 1, &path(&["when", "day"])).unwrap() {
        BrowseResult::Found(1, Item::Definition(ValueType::NumberType)) => {}
        other => panic!("unexpected {:?}", other),
    }
}

#[test]
fn aliases_that_loop_are_cyclic() {
    // a : b; b : a
    let tree = ContextTree {
        nodes: vec![node(
            NodeDataEnum::Root,
            vec![
                (s("a"), FieldContent::Expression(FieldExpression::Alias(path(&["b"])))),
                (s("b"), FieldContent::Expression(FieldExpression::Alias(path(&["a"])))),
            ],
        )],
    };
    assert_eq!(error_of(link_context(&tree, 0)), cyclic("Root", "a"));
    assert_eq!(error_of(link_variable(&tree, 0, &path(&["a"]))), cyclic("Root", "<self>"));
}

#[test]
fn browsing_into_constant_values() {
    let tree = nested_tree();
    let date = ValueEnum::DateValue(ValueOrSv::Value(CalendarDate { year: 2017, month: 5, day: 3 }));
    match continue_browse(&tree, &path(&["year"]), 0, 0, Item::Constant(date)).unwrap() {
        BrowseResult::Found(0, Item::Constant(v)) => {
            assert_eq!(v, ValueEnum::NumberValue(ExactNumber::Int(2017)))
        }
        other => panic!("unexpected {:?}", other),
    }
    let date = ValueEnum::DateValue(ValueOrSv::Value(CalendarDate { year: 2017, month: 5, day: 3 }));
    assert_eq!(
        error_of(continue_browse(&tree, &path(&["hour"]), 0, 0, Item::Constant(date))),
        LinkingErrorEnum::OtherLinkingError(s("Value '2017-05-03' does not have 'hour' item"))
    );
}

#[test]
fn linking_records_field_types() {
    let tree = nested_tree();
    let types = link_context_types(&tree, 1).unwrap();
    assert_eq!(
        types,
        vec![Some(LinkedType::Value(ValueType::NumberType)), None, Some(LinkedType::Value(ValueType::DateType))]
    );
    let looping = ContextTree {
        nodes: vec![node(NodeDataEnum::Root, vec![(s("value"), number_reading(&[&["value"]]))])],
    };
    assert_eq!(error_of(link_context_types(&looping, 0)), cyclic("Root", "value"));
}
