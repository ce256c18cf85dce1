use vstd::prelude::*;

pub mod annotations;
pub mod builtins;
pub mod call_checks;
pub mod calendar;
pub mod context_tree;
pub mod char_stream;
pub mod decimal;
pub mod duration;
pub mod duration_order;
pub mod duration_totals;
pub mod errors;
pub mod eval_errors;
pub mod expression_types;
pub mod fields;
pub mod filters;
pub mod iso_format;
pub mod iso_laws;
pub mod iso_parse;
pub mod link_rules;
pub mod list_laws;
pub mod list_ops;
pub mod list_values;
pub mod messages;
pub mod names;
pub mod names_order;
pub mod node_data;
pub mod numbers;
pub mod operator_types;
pub mod operators;
pub mod portable;
pub mod ranges;
pub mod string_functions;
pub mod string_laws;
pub mod template;
pub mod temporal;
pub mod temporal_laws;
pub mod text;
pub mod type_parse;
pub mod types;
pub mod utils;
pub mod value_tree;
pub mod value_ops;
pub mod values;
pub mod variables;

verus! {

} // verus!
