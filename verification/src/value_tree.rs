use vstd::prelude::*;

use crate::errors::RuntimeError;
use crate::node_data::{names_of, NodeData, NodeDataEnum};
use crate::text::{chars_equal_str, chars_of, push_str_chars, string_from_chars};
use crate::types::ValueType;
use crate::values::{
    browse_value, missing_for_type, spec_missing_for_type, spec_no_item_message, spec_value_member,
    spec_value_wf, ArrayValue, ValueEnum,
};

verus! {

/// What a field of an evaluated context holds: its value, or a child context.
#[derive(Debug)]
pub enum FieldValue {
    Value(ValueEnum),
    Object(usize),
}

/// An evaluated context: how it hangs in the tree, its fields with their values in order,
/// the names of the parameters of the function it is the body of, and the item that a
/// filter gives it.
#[derive(Debug)]
pub struct ValueNode {
    pub node: NodeData,
    pub fields: Vec<(String, FieldValue)>,
    pub parameters: Vec<String>,
    pub context_value: Option<ValueEnum>,
}

/// The evaluated contexts of a program, each named by its position; the parent of a
/// context comes before it.
#[derive(Debug)]
pub struct ValueTree {
    pub nodes: Vec<ValueNode>,
}

/// What a variable evaluates to: the value of field `field` of context `node`, the filter
/// item of context `node`, a value computed on the way (a member of a value, or the missing
/// value of the expected type), or a context.
#[derive(Debug, PartialEq)]
pub enum VariableValue {
    Field(usize, usize),
    ContextItem(usize),
    Computed(ValueEnum),
    Object(usize),
}

/// What a name of a path reaches while evaluating: the value of a field, a value computed
/// from it, or a context.
pub enum Reached {
    Field(usize, usize),
    Computed(ValueEnum),
    Object(usize),
}

/// How evaluating a variable ends: a result, the missing value of the expected type (the
/// path leads nowhere), or an evaluation error with its message.
pub enum EvalOutcome {
    Done(Reached),
    Item(usize),
    Missing,
    Failed(Seq<char>),
}

impl ValueTree {
    /// Each context hangs under a context that comes before it, or is a root or isolated;
    /// the children it names and the values it holds are well formed.
    pub open spec fn wf(&self) -> bool {
        forall|i: int|
            0 <= i < self.nodes@.len() ==> {
                let t = (#[trigger] self.nodes@[i]).node.spec_node_type();
                &&& (t is Child || t is Internal) ==> match crate::node_data::spec_parent(t) {
                    Some(p) => p < i,
                    None => false,
                }
                &&& forall|k: int|
                    0 <= k < self.nodes@[i].fields@.len() ==> match (
                    #[trigger] self.nodes@[i].fields@[k]).1 {
                        FieldValue::Object(c) => c < self.nodes@.len(),
                        FieldValue::Value(v) => spec_value_wf(v),
                    }
            }
    }

    /// The number of contexts.
    pub open spec fn len(&self) -> nat {
        self.nodes@.len()
    }
}

/// How context `i` is named: `Root`, `Isolated`, the name of the parent and the field for a
/// child, the name of the parent and `#child` for inner content.
pub open spec fn spec_value_node_name(nodes: Seq<ValueNode>, i: int) -> Seq<char>
    decreases i,
{
    if !(0 <= i < nodes.len()) {
        Seq::empty()
    } else {
        match nodes[i].node.spec_node_type() {
            NodeDataEnum::Root => "Root"@,
            NodeDataEnum::Isolated => "Isolated"@,
            NodeDataEnum::Child(name, Some(p)) => if p < i {
                spec_value_node_name(nodes, p as int) + "."@ + name@
            } else {
                Seq::empty()
            },
            NodeDataEnum::Internal(Some(p)) => if p < i {
                spec_value_node_name(nodes, p as int) + "#child"@
            } else {
                Seq::empty()
            },
            _ => Seq::empty(),
        }
    }
}

/// Appends how context `i` is named.
fn push_value_node_name(tree: &ValueTree, i: usize, out: &mut Vec<char>)
    requires
        tree.wf(),
        i < tree.len(),
    ensures
        final(out)@ == old(out)@ + spec_value_node_name(tree.nodes@, i as int),
    decreases i,
{
    match tree.nodes[i].node.node_type() {
        NodeDataEnum::Root => push_str_chars(out, "Root"),
        NodeDataEnum::Isolated => push_str_chars(out, "Isolated"),
        NodeDataEnum::Child(name, Some(p)) => {
            push_value_node_name(tree, *p, out);
            push_str_chars(out, ".");
            push_str_chars(out, name.as_str());
            assert(out@ =~= old(out)@ + spec_value_node_name(tree.nodes@, i as int));
        },
        NodeDataEnum::Internal(Some(p)) => {
            push_value_node_name(tree, *p, out);
            push_str_chars(out, "#child");
            assert(out@ =~= old(out)@ + spec_value_node_name(tree.nodes@, i as int));
        },
        _ => {
            assert(out@ =~= old(out)@ + spec_value_node_name(tree.nodes@, i as int));
        },
    }
}

/// How context `i` is named.
pub fn value_node_name(tree: &ValueTree, i: usize) -> (res: String)
    requires
        tree.wf(),
        i < tree.len(),
    ensures
        res@ == spec_value_node_name(tree.nodes@, i as int),
{
    let mut out: Vec<char> = Vec::new();
    push_value_node_name(tree, i, &mut out);
    assert(out@ =~= spec_value_node_name(tree.nodes@, i as int));
    string_from_chars(out.as_slice())
}

/// The position of the first field of `fields` called `name`, looking from position `k` on.
pub open spec fn spec_value_field_from(fields: Seq<(String, FieldValue)>, name: Seq<char>, k: int) -> Option<
    int,
>
    decreases fields.len() - k,
{
    if k < 0 || k >= fields.len() {
        None
    } else if fields[k].0@ == name {
        Some(k)
    } else {
        spec_value_field_from(fields, name, k + 1)
    }
}

/// A field found from position `j` on lies at or after `j`, within the fields.
proof fn lemma_value_field_from_range(fields: Seq<(String, FieldValue)>, name: Seq<char>, j: int)
    requires
        0 <= j,
    ensures
        spec_value_field_from(fields, name, j) matches Some(k) ==> j <= k < fields.len(),
    decreases fields.len() - j,
{
    if j < fields.len() && fields[j].0@ != name {
        lemma_value_field_from_range(fields, name, j + 1);
    }
}

/// What field `k` of context `n` reaches.
pub open spec fn spec_reached_field(nodes: Seq<ValueNode>, n: int, k: int) -> Reached {
    match nodes[n].fields@[k].1 {
        FieldValue::Object(c) => Reached::Object(c),
        FieldValue::Value(_) => Reached::Field(n as usize, k as usize),
    }
}

/// What `name` reaches in context `n` itself, or the error that it is not there.
pub open spec fn spec_value_get(nodes: Seq<ValueNode>, n: int, name: Seq<char>) -> Option<Reached> {
    match spec_value_field_from(nodes[n].fields@, name, 0) {
        Some(k) => Some(spec_reached_field(nodes, n, k)),
        None => None,
    }
}

/// Where the lookup of `name` from context `n` up through its parents stops: the first
/// context holding it and what it reaches there, or the topmost context where it is missing.
pub open spec fn spec_value_till_root(nodes: Seq<ValueNode>, n: int, name: Seq<char>) -> Result<
    Reached,
    int,
>
    decreases n,
{
    if !(0 <= n < nodes.len()) {
        Err(n)
    } else {
        match spec_value_get(nodes, n, name) {
            Some(r) => Ok(r),
            None => match crate::node_data::spec_parent(nodes[n].node.spec_node_type()) {
                Some(p) => if p < n {
                    spec_value_till_root(nodes, p as int, name)
                } else {
                    Err(n)
                },
                None => Err(n),
            },
        }
    }
}

/// The value behind what a name reached, where it is a value.
pub open spec fn spec_reached_value(nodes: Seq<ValueNode>, r: Reached) -> Option<ValueEnum> {
    match r {
        Reached::Field(n, k) => match nodes[n as int].fields@[k as int].1 {
            FieldValue::Value(v) => Some(v),
            _ => None,
        },
        Reached::Computed(v) => Some(v),
        Reached::Object(_) => None,
    }
}

/// Following `path` from position `index` on, out of what was reached: a field of a
/// context, or a member of a value. A field missing from a context makes the path lead
/// nowhere; a member a value does not have fails with a message naming both.
pub open spec fn spec_value_continue(nodes: Seq<ValueNode>, path: Seq<Seq<char>>, index: int, r: Reached) -> EvalOutcome
    decreases path.len() - index,
{
    if index < 0 || index >= path.len() {
        EvalOutcome::Done(r)
    } else {
        let name = path[index];
        match r {
            Reached::Object(c) => if c < nodes.len() {
                match spec_value_get(nodes, c as int, name) {
                    Some(next) => spec_value_continue(nodes, path, index + 1, next),
                    None => EvalOutcome::Missing,
                }
            } else {
                EvalOutcome::Missing
            },
            _ => match spec_reached_value(nodes, r) {
                Some(v) => match spec_value_member(v, name) {
                    Some(m) => spec_value_continue(nodes, path, index + 1, Reached::Computed(m)),
                    None => EvalOutcome::Failed("[link] "@ + spec_no_item_message(v, name)),
                },
                None => EvalOutcome::Missing,
            },
        }
    }
}

/// The nearest context, from `i` up through the parents, that hangs under the field `name`.
pub open spec fn spec_value_named_ancestor(nodes: Seq<ValueNode>, i: int, name: Seq<char>) -> Option<int>
    decreases i,
{
    if !(0 <= i < nodes.len()) {
        None
    } else {
        let t = nodes[i].node.spec_node_type();
        if t is Child && t->Child_0@ == name {
            Some(i)
        } else {
            match crate::node_data::spec_parent(t) {
                Some(p) => if p < i {
                    spec_value_named_ancestor(nodes, p as int, name)
                } else {
                    None
                },
                None => None,
            }
        }
    }
}

/// Where evaluating `path` from context `from` starts: a path that starts with a parameter
/// is followed from here; one that starts with the name of this context or of an ancestor,
/// from the nearest such context, that name taken; any other is looked up from here through
/// the parents.
pub open spec fn spec_value_start(nodes: Seq<ValueNode>, from: int, path: Seq<Seq<char>>) -> (
    usize,
    int,
    bool,
) {
    if path.len() == 0 {
        (from as usize, 0, true)
    } else if names_of(nodes[from].parameters@).contains(path[0]) {
        (from as usize, 0, false)
    } else {
        match spec_value_named_ancestor(nodes, from, path[0]) {
            Some(n) => (n as usize, 1, false),
            None => (from as usize, 0, true),
        }
    }
}

/// Evaluating the variable `path` from context `from`: `it` is the filter item of the
/// context (an error where there is none); any other path is followed from where it starts,
/// through fields of contexts and members of values; a path that leads nowhere gives the
/// missing value of the expected type.
pub open spec fn spec_eval_var(nodes: Seq<ValueNode>, from: int, path: Seq<Seq<char>>) -> EvalOutcome {
    if path.len() == 1 && path[0] == "it"@ {
        match nodes[from].context_value {
            Some(_) => EvalOutcome::Item(from as usize),
            None => EvalOutcome::Failed(
                "Context variable not set for "@ + spec_value_node_name(nodes, from),
            ),
        }
    } else {
        let (start, skipped, find_root) = spec_value_start(nodes, from, path);
        let rest = path.subrange(skipped, path.len() as int);
        if rest.len() == 0 {
            EvalOutcome::Missing
        } else {
            let first = if find_root {
                match spec_value_till_root(nodes, start as int, rest[0]) {
                    Ok(r) => Some(r),
                    Err(_) => None,
                }
            } else {
                spec_value_get(nodes, start as int, rest[0])
            };
            match first {
                Some(r) => spec_value_continue(nodes, rest, 1, r),
                None => EvalOutcome::Missing,
            }
        }
    }
}

/// Whether `v` is the value that stands for a missing value of type `t`.
pub open spec fn spec_is_missing_of(v: ValueEnum, t: ValueType) -> bool {
    match t {
        ValueType::ListType(inner) => if *inner == ValueType::UndefinedType {
            v == ValueEnum::Array(ArrayValue::EmptyUntyped)
        } else {
            v matches ValueEnum::Array(ArrayValue::PrimitivesArray { values, item_type })
                && values@.len() == 0 && item_type == *inner
        },
        _ => v == spec_missing_for_type(t),
    }
}

/// Whether `res` is how evaluating ended as `outcome`, with `expected` the type of the
/// variable.
pub open spec fn spec_eval_result(
    res: Result<VariableValue, RuntimeError>,
    outcome: EvalOutcome,
    expected: ValueType,
) -> bool {
    match outcome {
        EvalOutcome::Done(Reached::Field(n, k)) => res == Ok::<VariableValue, RuntimeError>(
            VariableValue::Field(n, k),
        ),
        EvalOutcome::Done(Reached::Computed(v)) => res == Ok::<VariableValue, RuntimeError>(
            VariableValue::Computed(v),
        ),
        EvalOutcome::Done(Reached::Object(c)) => res == Ok::<VariableValue, RuntimeError>(
            VariableValue::Object(c),
        ),
        EvalOutcome::Item(n) => res == Ok::<VariableValue, RuntimeError>(
            VariableValue::ContextItem(n),
        ),
        EvalOutcome::Missing => res matches Ok(VariableValue::Computed(v)) && spec_is_missing_of(
            v,
            expected,
        ),
        EvalOutcome::Failed(m) => res is Err && crate::errors::is_eval_error(res->Err_0, m),
    }
}

/// The nearest context, from `i` up through the parents, that hangs under the field `name`.
fn value_named_ancestor(tree: &ValueTree, i: usize, name: &str) -> (res: Option<usize>)
    requires
        tree.wf(),
        i < tree.len(),
    ensures
        res == (match spec_value_named_ancestor(tree.nodes@, i as int, name@) {
            Some(n) => Some(n as usize),
            None => None::<usize>,
        }),
        res matches Some(n) ==> n < tree.len(),
        spec_value_named_ancestor(tree.nodes@, i as int, name@) matches Some(n) ==> 0 <= n
            < tree.len(),
    decreases i,
{
    match tree.nodes[i].node.node_type() {
        NodeDataEnum::Child(field, parent) => {
            let c = chars_of(field.as_str());
            if chars_equal_str(c.as_slice(), name) {
                return Some(i);
            }
            match parent {
                Some(p) => if *p < i {
                    value_named_ancestor(tree, *p, name)
                } else {
                    None
                },
                None => None,
            }
        },
        NodeDataEnum::Internal(Some(p)) => if *p < i {
            value_named_ancestor(tree, *p, name)
        } else {
            None
        },
        _ => None,
    }
}

/// Whether `name` is one of `names`.
fn has_name(names: &Vec<String>, name: &str) -> (res: bool)
    ensures
        res == names_of(names@).contains(name@),
{
    let mut i: usize = 0;
    while i < names.len()
        invariant
            i <= names@.len(),
            forall|j: int| 0 <= j < i ==> (#[trigger] names@[j])@ != name@,
        decreases names@.len() - i,
    {
        let c = chars_of(names[i].as_str());
        if chars_equal_str(c.as_slice(), name) {
            assert(names_of(names@)[i as int] == name@);
            return true;
        }
        i = i + 1;
    }
    proof {
        if names_of(names@).contains(name@) {
            let k = choose|k: int| 0 <= k < names_of(names@).len() && names_of(names@)[k] == name@;
            assert(names@[k]@ == name@);
        }
    }
    false
}

/// Where evaluating `path` from context `from` starts.
fn value_start(tree: &ValueTree, from: usize, path: &Vec<String>) -> (res: (usize, usize, bool))
    requires
        tree.wf(),
        from < tree.len(),
    ensures
        (res.0, res.1 as int, res.2) == spec_value_start(tree.nodes@, from as int, names_of(path@)),
        res.0 < tree.len(),
        res.1 <= path@.len(),
{
    assert(names_of(path@).len() == path@.len());
    if path.len() == 0 {
        return (from, 0, true);
    }
    let first = path[0].as_str();
    assert(names_of(path@)[0] == first@);
    if has_name(&tree.nodes[from].parameters, first) {
        return (from, 0, false);
    }
    match value_named_ancestor(tree, from, first) {
        Some(n) => (n, 1, false),
        None => (from, 0, true),
    }
}

/// What `name` reaches in context `n` itself.
fn value_get(tree: &ValueTree, n: usize, name: &str) -> (res: Option<Reached>)
    requires
        tree.wf(),
        n < tree.len(),
    ensures
        res == spec_value_get(tree.nodes@, n as int, name@),
        res matches Some(Reached::Field(m, k)) ==> m < tree.len() && k < tree.nodes@[m as int].fields@.len()
            && tree.nodes@[m as int].fields@[k as int].1 is Value,
        res matches Some(Reached::Object(c)) ==> c < tree.len(),
        !(res matches Some(Reached::Computed(_))),
{
    let fields = &tree.nodes[n].fields;
    let ghost fs = fields@;
    proof {
        lemma_value_field_from_range(fs, name@, 0);
    }
    let mut i: usize = 0;
    while i < fields.len()
        invariant
            fs == fields@,
            fs == tree.nodes@[n as int].fields@,
            i <= fs.len(),
            tree.wf(),
            n < tree.len(),
            spec_value_field_from(fs, name@, 0) == spec_value_field_from(fs, name@, i as int),
        decreases fs.len() - i,
    {
        let key = chars_of(fields[i].0.as_str());
        if chars_equal_str(key.as_slice(), name) {
            let ghost node = tree.nodes@[n as int];
            assert(match (node.fields@[i as int]).1 {
                FieldValue::Object(c) => c < tree.nodes@.len(),
                FieldValue::Value(v) => spec_value_wf(v),
            });
            return match &fields[i].1 {
                FieldValue::Object(c) => Some(Reached::Object(*c)),
                FieldValue::Value(_) => Some(Reached::Field(n, i)),
            };
        }
        i = i + 1;
    }
    None
}

/// The lookup of `name` from context `n` up through its parents.
fn value_till_root(tree: &ValueTree, n: usize, name: &str) -> (res: Option<Reached>)
    requires
        tree.wf(),
        n < tree.len(),
    ensures
        res == (match spec_value_till_root(tree.nodes@, n as int, name@) {
            Ok(r) => Some(r),
            Err(_) => None::<Reached>,
        }),
        res matches Some(Reached::Field(m, k)) ==> m < tree.len() && k < tree.nodes@[m as int].fields@.len()
            && tree.nodes@[m as int].fields@[k as int].1 is Value,
        res matches Some(Reached::Object(c)) ==> c < tree.len(),
        !(res matches Some(Reached::Computed(_))),
    decreases n,
{
    match value_get(tree, n, name) {
        Some(r) => Some(r),
        None => match tree.nodes[n].node.node_type().get_parent() {
            Some(p) => if p < n {
                value_till_root(tree, p, name)
            } else {
                None
            },
            None => None,
        },
    }
}

/// Following `path` from position `index` on, out of what was reached; `None` where the
/// path leads nowhere.
fn value_continue(tree: &ValueTree, path: &Vec<String>, index: usize, r: Reached) -> (res: Result<
    Option<Reached>,
    RuntimeError,
>)
    requires
        tree.wf(),
        r matches Reached::Field(m, k) ==> m < tree.len() && k < tree.nodes@[m as int].fields@.len()
            && tree.nodes@[m as int].fields@[k as int].1 is Value,
        r matches Reached::Computed(v) ==> spec_value_wf(v),
    ensures
        match spec_value_continue(tree.nodes@, names_of(path@), index as int, r) {
            EvalOutcome::Done(x) => res == Ok::<Option<Reached>, RuntimeError>(Some(x)),
            EvalOutcome::Missing => res == Ok::<Option<Reached>, RuntimeError>(None),
            EvalOutcome::Failed(m) => res is Err && crate::errors::is_eval_error(res->Err_0, m),
            EvalOutcome::Item(_) => false,
        },
    decreases path@.len() - index,
{
    assert(names_of(path@).len() == path@.len());
    if index >= path.len() {
        return Ok(Some(r));
    }
    let name = path[index].as_str();
    assert(names_of(path@)[index as int] == name@);
    let member = match r {
        Reached::Object(c) => {
            if c < tree.nodes.len() {
                return match value_get(tree, c, name) {
                    Some(next) => value_continue(tree, path, index + 1, next),
                    None => Ok(None),
                };
            } else {
                return Ok(None);
            }
        },
        Reached::Field(m, k) => {
            assert(tree.nodes@[m as int].fields@[k as int] == tree.nodes@[m as int].fields@[k as int]);
            match &tree.nodes[m].fields[k].1 {
                FieldValue::Value(v) => {
                    assert(spec_value_wf(*v));
                    browse_value(v, name)
                },
                FieldValue::Object(_) => {
                    return Ok(None);
                },
            }
        },
        Reached::Computed(v) => browse_value(&v, name),
    };
    match member {
        Ok(next) => value_continue(tree, path, index + 1, Reached::Computed(next)),
        Err(e) => Err(RuntimeError::into_runtime(e)),
    }
}

/// Evaluates the variable `path` from context `from`, as `spec_eval_var` says, where
/// `expected` is the type the variable was linked to.
pub fn eval_variable(tree: &ValueTree, from: usize, path: &Vec<String>, expected: &ValueType) -> (res:
    Result<VariableValue, RuntimeError>)
    requires
        tree.wf(),
        from < tree.len(),
    ensures
        spec_eval_result(res, spec_eval_var(tree.nodes@, from as int, names_of(path@)), *expected),
{
    proof {
        reveal_strlit("it");
    }
    assert(names_of(path@).len() == path@.len());
    if path.len() == 1 {
        let c = chars_of(path[0].as_str());
        assert(names_of(path@)[0] == path@[0]@);
        if chars_equal_str(c.as_slice(), "it") {
            return match &tree.nodes[from].context_value {
                Some(_) => Ok(VariableValue::ContextItem(from)),
                None => {
                    let mut out: Vec<char> = Vec::new();
                    push_str_chars(&mut out, "Context variable not set for ");
                    let shown = value_node_name(tree, from);
                    push_str_chars(&mut out, shown.as_str());
                    Err(RuntimeError::eval_error(string_from_chars(out.as_slice())))
                },
            };
        }
    }
    let (start, skipped, find_root) = value_start(tree, from, path);
    if skipped >= path.len() {
        return Ok(VariableValue::Computed(missing_for_type(expected)));
    }
    let first_name = path[skipped].as_str();
    let ghost rest = names_of(path@).subrange(skipped as int, path@.len() as int);
    assert(rest[0] == first_name@);
    let first = if find_root {
        value_till_root(tree, start, first_name)
    } else {
        value_get(tree, start, first_name)
    };
    let r = match first {
        Some(r) => r,
        None => return Ok(VariableValue::Computed(missing_for_type(expected))),
    };
    let rest_path = path_after(path, skipped);
    assert(names_of(rest_path@) == rest);
    match value_continue(tree, &rest_path, 1, r) {
        Ok(Some(Reached::Field(n, k))) => Ok(VariableValue::Field(n, k)),
        Ok(Some(Reached::Computed(v))) => Ok(VariableValue::Computed(v)),
        Ok(Some(Reached::Object(c))) => Ok(VariableValue::Object(c)),
        Ok(None) => Ok(VariableValue::Computed(missing_for_type(expected))),
        Err(e) => Err(e),
    }
}

/// The rest of `path` from position `k` on.
fn path_after(path: &Vec<String>, k: usize) -> (res: Vec<String>)
    requires
        k <= path@.len(),
    ensures
        names_of(res@) == names_of(path@).subrange(k as int, path@.len() as int),
{
    let mut out: Vec<String> = Vec::new();
    let mut i: usize = k;
    while i < path.len()
        invariant
            k <= i <= path@.len(),
            names_of(out@) == names_of(path@).subrange(k as int, i as int),
        decreases path@.len() - i,
    {
        let c = chars_of(path[i].as_str());
        let ghost before = out@;
        out.push(string_from_chars(c.as_slice()));
        assert(names_of(out@) =~= names_of(before).push(path@[i as int]@));
        assert(names_of(out@) =~= names_of(path@).subrange(k as int, i + 1));
        i = i + 1;
    }
    out
}

} // verus!
