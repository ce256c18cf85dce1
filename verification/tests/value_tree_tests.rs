use edge_rules::errors::RuntimeErrorEnum;
use edge_rules::node_data::{NodeData, NodeDataEnum};
use edge_rules::numbers::ExactNumber;
use edge_rules::temporal::CalendarDate;
use edge_rules::types::{SpecialValueEnum, ValueOrSv, ValueType};
use edge_rules::value_tree::{eval_variable, FieldValue, ValueNode, ValueTree, VariableValue};
use edge_rules::values::{ArrayValue, ValueEnum};

fn s(text: &str) -> String {
    text.to_string()
}

fn path(names: &[&str]) -> Vec<String> {
    names.iter().map(|n| s(n)).collect()
}

fn num(v: i64) -> ValueEnum {
    ValueEnum::NumberValue(ExactNumber::Int(v))
}

fn node(node_type: NodeDataEnum, fields: Vec<(String, FieldValue)>) -> ValueNode {
    ValueNode { node: NodeData::new(node_type), fields, parameters: Vec::new(), context_value: None }
}

// { limit : 10; order : { total : 3; when : 2017-05-03 } }
fn tree() -> ValueTree {
    ValueTree {
        nodes: vec![
            node(
                NodeDataEnum::Root,
                vec![(s("limit"), FieldValue::Value(num(10))), (s("order"), FieldValue::Object(1))],
            ),
            node(
                NodeDataEnum::Child(s("order"), Some(0)),
                vec![
                    (s("total"), FieldValue::Value(num(3))),
                    (
                        s("when"),
                        FieldValue::Value(ValueEnum::DateValue(ValueOrSv::Value(CalendarDate {
                            year: 2017,
                            month: 5,
                            day: 3,
                        }))),
                    ),
                ],
            ),
        ],
    }
}

#[test]
fn variables_evaluate_through_contexts_and_members() {
    let t = tree();
    let n = ValueType::NumberType;
    assert_eq!(eval_variable(&t, 1, &path(&["limit"]), &n).unwrap(), VariableValue::Field(0, 0));
    assert_eq!(eval_variable(&t, 0, &path(&["order", "total"]), &n).unwrap(), VariableValue::Field(1, 0));
    assert_eq!(eval_variable(&t, 1, &path(&["order", "total"]), &n).unwrap(), VariableValue::Field(1, 0));
    assert_eq!(
        eval_variable(&t, 0, &path(&["order", "when", "year"]), &n).unwrap(),
        VariableValue::Computed(num(2017))
    );
    assert_eq!(eval_variable(&t, 0, &path(&["order"]), &n).unwrap(), VariableValue::Object(1));
}

#[test]
fn undefined_variables_give_missing_values() {
    let t = tree();
    assert_eq!(
        eval_variable(&t, 1, &path(&["nothing"]), &ValueType::NumberType).unwrap(),
        VariableValue::Computed(ValueEnum::NumberValue(ExactNumber::SV(SpecialValueEnum::Missing)))
    );
    assert_eq!(
        eval_variable(&t, 0, &path(&["order", "nothing"]), &ValueType::DateType).unwrap(),
        VariableValue::Computed(ValueEnum::DateValue(ValueOrSv::Sv(SpecialValueEnum::Missing)))
    );
    assert_eq!(
        eval_variable(&t, 0, &path(&["x"]), &ValueType::ListType(Box::new(ValueType::UndefinedType)))
            .unwrap(),
        VariableValue::Computed(ValueEnum::Array(ArrayValue::EmptyUntyped))
    );
}

#[test]
fn variable_errors() {
    let t = tree();
    match eval_variable(&t, 0, &path(&["limit", "year"]), &ValueType::NumberType).unwrap_err().error {
        RuntimeErrorEnum::EvalError(m) => assert_eq!(m, "[link] Value '10' does not have 'year' item"),
        other => panic!("unexpected {:?}", other),
    }
    match eval_variable(&t, 1, &path(&["it"]), &ValueType::NumberType).unwrap_err().error {
        RuntimeErrorEnum::EvalError(m) => assert_eq!(m, "Context variable not set for Root.order"),
        other => panic!("unexpected {:?}", other),
    }
    let mut t = tree();
    t.nodes[1].context_value = Some(num(5));
    assert_eq!(
        eval_variable(&t, 1, &path(&["it"]), &ValueType::NumberType).unwrap(),
        VariableValue::ContextItem(1)
    );
}
