use vstd::prelude::*;

use crate::errors::LinkingError;
use crate::node_data::{names_of, NodeData, NodeDataEnum};
use crate::text::{chars_equal_str, chars_of, push_str_chars, string_from_chars};
use crate::types::{clone_type, spec_type_string, ValueType};
use crate::values::{
    browse_value, spec_no_item_message, spec_value_member, spec_value_type, spec_value_wf, ValueEnum,
};

verus! {

/// What a field's expression is, as far as linking goes: another variable path whose type
/// it takes, or an expression of a known type that reads the given variable paths.
#[derive(Debug)]
pub enum FieldExpression {
    Alias(Vec<String>),
    Typed(ValueType, Vec<Vec<String>>),
}

/// What a field of a context holds: a declared type, a child context, or an expression.
#[derive(Debug)]
pub enum FieldContent {
    Definition(ValueType),
    Object(usize),
    Expression(FieldExpression),
}

/// A context of the tree: how it hangs in the tree, its fields in order, the parameters of
/// the function it is the body of, and the type of the item that a filter gives it.
#[derive(Debug)]
pub struct ContextNode {
    pub node: NodeData,
    pub fields: Vec<(String, FieldContent)>,
    pub parameters: Vec<(String, ValueType)>,
    pub context_type: Option<ValueType>,
}

/// The contexts of a program, each named by its position; the parent of a context comes
/// before it.
#[derive(Debug)]
pub struct ContextTree {
    pub nodes: Vec<ContextNode>,
}

/// What a name reaches: a type (declared, of a parameter, or of a member), a context, the
/// expression of field `field` of context `node`, or a value already known.
#[derive(Debug)]
pub enum Item {
    Definition(ValueType),
    Object(usize),
    Expression(usize, usize),
    Constant(ValueEnum),
}

/// Where browsing a path stopped: at the end, on context `node` with the item reached; or
/// on the expression of field `field` of context `node`, which must be linked before the
/// path from position `rest` on can be followed.
#[derive(Debug)]
pub enum BrowseResult {
    Found(usize, Item),
    OnExpression(usize, usize, usize),
}

/// What went wrong in a lookup, as texts.
pub enum LinkFailure {
    FieldNotFound(Seq<char>, Seq<char>),
    CyclicReference(Seq<char>, Seq<char>),
    Other(Seq<char>),
    NotLinked,
}

/// Whether the linking error `e` is the failure `f`.
pub open spec fn spec_is_failure(e: LinkingError, f: LinkFailure) -> bool {
    &&& e.context@.len() == 0
    &&& match f {
        LinkFailure::FieldNotFound(o, n) => e.error is FieldNotFound && e.error->FieldNotFound_0@
            == o && e.error->FieldNotFound_1@ == n,
        LinkFailure::CyclicReference(o, n) => e.error is CyclicReference
            && e.error->CyclicReference_0@ == o && e.error->CyclicReference_1@ == n,
        LinkFailure::Other(m) => e.error is OtherLinkingError && e.error->OtherLinkingError_0@
            == m,
        LinkFailure::NotLinked => e.error is NotLinkedYet,
    }
}

/// Whether `res` is `expected`, its error taken as text.
pub open spec fn spec_outcome<T>(res: Result<T, LinkingError>, expected: Result<T, LinkFailure>) -> bool {
    match expected {
        Ok(v) => res == Ok::<T, LinkingError>(v),
        Err(f) => res is Err && spec_is_failure(res->Err_0, f),
    }
}

impl ContextTree {
    /// Each context hangs under a context that comes before it, or is a root or isolated,
    /// and the names of its children appear once.
    pub open spec fn wf(&self) -> bool {
        forall|i: int|
            0 <= i < self.nodes@.len() ==> {
                let t = (#[trigger] self.nodes@[i]).node.spec_node_type();
                &&& self.nodes@[i].node.wf()
                &&& (t is Child || t is Internal) ==> match crate::node_data::spec_parent(t) {
                    Some(p) => p < i,
                    None => false,
                }
                &&& forall|k: int|
                    0 <= k < self.nodes@[i].fields@.len() ==> ((#[trigger] self.nodes@[i].fields@[k]).1
                        matches FieldContent::Object(c) ==> c < self.nodes@.len())
            }
    }

    /// The number of contexts.
    pub open spec fn len(&self) -> nat {
        self.nodes@.len()
    }
}

/// How context `i` is named: `Root`, `Isolated`, the name of the parent and the field for a
/// child, the name of the parent and `#child` for inner content.
pub open spec fn spec_node_name(nodes: Seq<ContextNode>, i: int) -> Seq<char>
    decreases i,
{
    if !(0 <= i < nodes.len()) {
        Seq::empty()
    } else {
        match nodes[i].node.spec_node_type() {
            NodeDataEnum::Root => "Root"@,
            NodeDataEnum::Isolated => "Isolated"@,
            NodeDataEnum::Child(name, Some(p)) => if p < i {
                spec_node_name(nodes, p as int) + "."@ + name@
            } else {
                Seq::empty()
            },
            NodeDataEnum::Internal(Some(p)) => if p < i {
                spec_node_name(nodes, p as int) + "#child"@
            } else {
                Seq::empty()
            },
            _ => Seq::empty(),
        }
    }
}

/// How context `i` is named.
pub fn node_name(tree: &ContextTree, i: usize) -> (res: String)
    requires
        tree.wf(),
        i < tree.len(),
    ensures
        res@ == spec_node_name(tree.nodes@, i as int),
    decreases i,
{
    let mut out: Vec<char> = Vec::new();
    push_node_name(tree, i, &mut out);
    assert(out@ =~= spec_node_name(tree.nodes@, i as int));
    string_from_chars(out.as_slice())
}

/// Appends how context `i` is named.
fn push_node_name(tree: &ContextTree, i: usize, out: &mut Vec<char>)
    requires
        tree.wf(),
        i < tree.len(),
    ensures
        final(out)@ == old(out)@ + spec_node_name(tree.nodes@, i as int),
    decreases i,
{
    assert(tree.nodes@[i as int].node.wf());
    match tree.nodes[i].node.node_type() {
        NodeDataEnum::Root => push_str_chars(out, "Root"),
        NodeDataEnum::Isolated => push_str_chars(out, "Isolated"),
        NodeDataEnum::Child(name, Some(p)) => {
            push_node_name(tree, *p, out);
            push_str_chars(out, ".");
            push_str_chars(out, name.as_str());
            assert(out@ =~= old(out)@ + spec_node_name(tree.nodes@, i as int));
        },
        NodeDataEnum::Internal(Some(p)) => {
            push_node_name(tree, *p, out);
            push_str_chars(out, "#child");
            assert(out@ =~= old(out)@ + spec_node_name(tree.nodes@, i as int));
        },
        _ => {
            assert(out@ =~= old(out)@ + spec_node_name(tree.nodes@, i as int));
        },
    }
}

/// The position of the first field of `fields` called `name`, looking from position `k` on.
pub open spec fn spec_field_from(fields: Seq<(String, FieldContent)>, name: Seq<char>, k: int) -> Option<
    int,
>
    decreases fields.len() - k,
{
    if k < 0 || k >= fields.len() {
        None
    } else if fields[k].0@ == name {
        Some(k)
    } else {
        spec_field_from(fields, name, k + 1)
    }
}

/// The position of the first parameter of `params` called `name`, from position `k` on.
pub open spec fn spec_param_from(params: Seq<(String, ValueType)>, name: Seq<char>, k: int) -> Option<
    int,
>
    decreases params.len() - k,
{
    if k < 0 || k >= params.len() {
        None
    } else if params[k].0@ == name {
        Some(k)
    } else {
        spec_param_from(params, name, k + 1)
    }
}

/// What field `k` of context `n` reaches.
pub open spec fn spec_field_item(nodes: Seq<ContextNode>, n: int, k: int) -> Item {
    match nodes[n].fields@[k].1 {
        FieldContent::Definition(t) => Item::Definition(t),
        FieldContent::Object(c) => Item::Object(c),
        FieldContent::Expression(_) => Item::Expression(n as usize, k as usize),
    }
}

/// What `name` reaches in context `n` itself: its first field of that name, else the type
/// of its first parameter of that name, else nothing.
pub open spec fn spec_lookup(nodes: Seq<ContextNode>, n: int, name: Seq<char>) -> Option<Item> {
    match spec_field_from(nodes[n].fields@, name, 0) {
        Some(k) => Some(spec_field_item(nodes, n, k)),
        None => match spec_param_from(nodes[n].parameters@, name, 0) {
            Some(k) => Some(Item::Definition(nodes[n].parameters@[k].1)),
            None => None,
        },
    }
}

/// What `name` reaches in context `n`, or the error that it is not there.
pub open spec fn spec_get(nodes: Seq<ContextNode>, n: int, name: Seq<char>) -> Result<Item, LinkFailure> {
    match spec_lookup(nodes, n, name) {
        Some(item) => Ok(item),
        None => Err(LinkFailure::FieldNotFound(spec_node_name(nodes, n), name)),
    }
}

/// The field `name` looked up from context `n` up through its parents: the context where
/// it was found and what it reaches; a field of a context whose field is locked (being
/// linked) is a cyclic reference; a name found nowhere up to the top is not found there.
pub open spec fn spec_till_root(
    nodes: Seq<ContextNode>,
    n: int,
    name: Seq<char>,
    locked: Seq<(usize, usize)>,
) -> Result<(usize, Item), LinkFailure>
    decreases n,
{
    if !(0 <= n < nodes.len()) {
        Err(LinkFailure::FieldNotFound(Seq::empty(), name))
    } else if spec_field_locked(nodes, n, name, locked) {
        Err(LinkFailure::CyclicReference(spec_node_name(nodes, n), name))
    } else {
        match spec_lookup(nodes, n, name) {
            Some(item) => Ok((n as usize, item)),
            None => match crate::node_data::spec_parent(nodes[n].node.spec_node_type()) {
                Some(p) => if p < n {
                    spec_till_root(nodes, p as int, name, locked)
                } else {
                    Err(LinkFailure::FieldNotFound(spec_node_name(nodes, n), name))
                },
                None => Err(LinkFailure::FieldNotFound(spec_node_name(nodes, n), name)),
            },
        }
    }
}

/// Whether a field called `name` of context `n` is locked.
pub open spec fn spec_field_locked(
    nodes: Seq<ContextNode>,
    n: int,
    name: Seq<char>,
    locked: Seq<(usize, usize)>,
) -> bool {
    exists|j: int|
        0 <= j < locked.len() && locked[j].0 == n && locked[j].1 < nodes[n].fields@.len()
            && nodes[n].fields@[locked[j].1 as int].0@ == name
}

/// The type of the member `name` of a value of type `t`: the parts of a date, a time of day
/// and a date with a time are numbers, and the time of a date with a time is a time.
pub open spec fn spec_member_type(t: ValueType, name: Seq<char>) -> Option<ValueType> {
    match t {
        ValueType::DateType => if name == "year"@ || name == "month"@ || name == "day"@ || name
            == "weekday"@ {
            Some(ValueType::NumberType)
        } else {
            None
        },
        ValueType::TimeType => if name == "hour"@ || name == "minute"@ || name == "second"@ {
            Some(ValueType::NumberType)
        } else {
            None
        },
        ValueType::DateTimeType => if name == "year"@ || name == "month"@ || name == "day"@
            || name == "hour"@ || name == "minute"@ || name == "second"@ || name == "weekday"@ {
            Some(ValueType::NumberType)
        } else if name == "time"@ {
            Some(ValueType::TimeType)
        } else {
            None
        },
        _ => None,
    }
}

/// The message for a member that a type does not have.
pub open spec fn spec_no_member_message(name: Seq<char>, t: ValueType) -> Seq<char> {
    "Cannot access '"@ + name + "' from '"@ + spec_type_string(t) + "' definition"@
}

/// Browsing the rest of `path`, from position `index` on, out of the item `item` reached in
/// context `node`: a member of a type, a field of a context, and a stop on an expression,
/// which must be linked first; the end of the path gives what was reached.
pub open spec fn spec_continue(
    nodes: Seq<ContextNode>,
    path: Seq<Seq<char>>,
    index: int,
    node: usize,
    item: Item,
) -> Result<BrowseResult, LinkFailure>
    decreases path.len() - index,
{
    if index < 0 || index >= path.len() {
        Ok(BrowseResult::Found(node, item))
    } else {
        let name = path[index];
        match item {
            Item::Definition(t) => match spec_member_type(t, name) {
                Some(m) => spec_continue(nodes, path, index + 1, node, Item::Definition(m)),
                None => Err(LinkFailure::Other(spec_no_member_message(name, t))),
            },
            Item::Object(c) => if c < nodes.len() {
                match spec_get(nodes, c as int, name) {
                    Ok(next) => spec_continue(nodes, path, index + 1, c, next),
                    Err(f) => Err(f),
                }
            } else {
                Err(LinkFailure::FieldNotFound(Seq::empty(), name))
            },
            Item::Expression(n, k) => Ok(BrowseResult::OnExpression(n, k, index as usize)),
            Item::Constant(v) => match spec_value_member(v, name) {
                Some(m) => spec_continue(nodes, path, index + 1, node, Item::Constant(m)),
                None => Err(LinkFailure::Other(spec_no_item_message(v, name))),
            },
        }
    }
}

/// Browsing `path` from context `node`: its first name looked up from that context up
/// through its parents where `find_root` holds, in that context alone otherwise; the rest
/// followed from what it reaches. An empty path is not found.
pub open spec fn spec_browse(
    nodes: Seq<ContextNode>,
    node: usize,
    path: Seq<Seq<char>>,
    find_root: bool,
    locked: Seq<(usize, usize)>,
) -> Result<BrowseResult, LinkFailure> {
    if path.len() == 0 {
        Err(LinkFailure::FieldNotFound(spec_node_name(nodes, node as int), Seq::empty()))
    } else {
        let first = if find_root {
            spec_till_root(nodes, node as int, path[0], locked)
        } else {
            match spec_get(nodes, node as int, path[0]) {
                Ok(item) => Ok((node, item)),
                Err(f) => Err(f),
            }
        };
        match first {
            Ok((n, item)) => spec_continue(nodes, path, 1, n, item),
            Err(f) => Err(f),
        }
    }
}

/// A field found from position `j` on lies at or after `j`, within the fields.
proof fn lemma_field_from_range(fields: Seq<(String, FieldContent)>, name: Seq<char>, j: int)
    requires
        0 <= j,
    ensures
        spec_field_from(fields, name, j) matches Some(k) ==> j <= k < fields.len(),
    decreases fields.len() - j,
{
    if j < fields.len() && fields[j].0@ != name {
        lemma_field_from_range(fields, name, j + 1);
    }
}

/// A parameter found from position `j` on lies at or after `j`, within the parameters.
proof fn lemma_param_from_range(params: Seq<(String, ValueType)>, name: Seq<char>, j: int)
    requires
        0 <= j,
    ensures
        spec_param_from(params, name, j) matches Some(k) ==> j <= k < params.len(),
    decreases params.len() - j,
{
    if j < params.len() && params[j].0@ != name {
        lemma_param_from_range(params, name, j + 1);
    }
}

/// The position of the first field of context `n` called `name`.
fn find_field(tree: &ContextTree, n: usize, name: &str) -> (res: Option<usize>)
    requires
        n < tree.len(),
    ensures
        res matches Some(k) ==> spec_field_from(tree.nodes@[n as int].fields@, name@, 0) == Some(
            k as int,
        ),
        res is None ==> spec_field_from(tree.nodes@[n as int].fields@, name@, 0) is None,
        res matches Some(k) ==> k < tree.nodes@[n as int].fields@.len(),
        spec_field_from(tree.nodes@[n as int].fields@, name@, 0) matches Some(k) ==> 0 <= k
            < tree.nodes@[n as int].fields@.len(),
{
    let fields = &tree.nodes[n].fields;
    let ghost fs = fields@;
    proof {
        lemma_field_from_range(fs, name@, 0);
    }
    let mut i: usize = 0;
    while i < fields.len()
        invariant
            fs == fields@,
            fs == tree.nodes@[n as int].fields@,
            i <= fs.len(),
            spec_field_from(fs, name@, 0) == spec_field_from(fs, name@, i as int),
        decreases fs.len() - i,
    {
        let key = chars_of(fields[i].0.as_str());
        if chars_equal_str(key.as_slice(), name) {
            return Some(i);
        }
        i = i + 1;
    }
    None
}

/// The position of the first parameter of context `n` called `name`.
fn find_param(tree: &ContextTree, n: usize, name: &str) -> (res: Option<usize>)
    requires
        n < tree.len(),
    ensures
        res matches Some(k) ==> spec_param_from(tree.nodes@[n as int].parameters@, name@, 0)
            == Some(k as int),
        res is None ==> spec_param_from(tree.nodes@[n as int].parameters@, name@, 0) is None,
        res matches Some(k) ==> k < tree.nodes@[n as int].parameters@.len(),
        spec_param_from(tree.nodes@[n as int].parameters@, name@, 0) matches Some(k) ==> 0 <= k
            < tree.nodes@[n as int].parameters@.len(),
{
    let params = &tree.nodes[n].parameters;
    let ghost ps = params@;
    proof {
        lemma_param_from_range(ps, name@, 0);
    }
    let mut i: usize = 0;
    while i < params.len()
        invariant
            ps == params@,
            ps == tree.nodes@[n as int].parameters@,
            i <= ps.len(),
            spec_param_from(ps, name@, 0) == spec_param_from(ps, name@, i as int),
        decreases ps.len() - i,
    {
        let key = chars_of(params[i].0.as_str());
        if chars_equal_str(key.as_slice(), name) {
            return Some(i);
        }
        i = i + 1;
    }
    None
}

/// What field `k` of context `n` reaches.
fn field_item(tree: &ContextTree, n: usize, k: usize) -> (res: Item)
    requires
        n < tree.len(),
        k < tree.nodes@[n as int].fields@.len(),
    ensures
        res == spec_field_item(tree.nodes@, n as int, k as int),
{
    match &tree.nodes[n].fields[k].1 {
        FieldContent::Definition(t) => Item::Definition(clone_type(t)),
        FieldContent::Object(c) => Item::Object(*c),
        FieldContent::Expression(_) => Item::Expression(n, k),
    }
}

/// What `name` reaches in context `n` itself.
fn lookup(tree: &ContextTree, n: usize, name: &str) -> (res: Option<Item>)
    requires
        n < tree.len(),
    ensures
        res == spec_lookup(tree.nodes@, n as int, name@),
        res matches Some(Item::Expression(m, _)) ==> m == n,
        !(res matches Some(Item::Constant(_))),
{
    match find_field(tree, n, name) {
        Some(k) => Some(field_item(tree, n, k)),
        None => match find_param(tree, n, name) {
            Some(k) => Some(Item::Definition(clone_type(&tree.nodes[n].parameters[k].1))),
            None => None,
        },
    }
}

/// What `name` reaches in context `n`, or the error that it is not there.
fn get_item(tree: &ContextTree, n: usize, name: &str) -> (res: Result<Item, LinkingError>)
    requires
        tree.wf(),
        n < tree.len(),
    ensures
        spec_outcome(res, spec_get(tree.nodes@, n as int, name@)),
        res matches Ok(Item::Expression(m, _)) ==> m == n,
        !(res matches Ok(Item::Constant(_))),
{
    match lookup(tree, n, name) {
        Some(item) => Ok(item),
        None => {
            let shown = node_name(tree, n);
            Err(LinkingError::field_not_found(shown.as_str(), name))
        },
    }
}

/// Whether a field called `name` of context `n` is locked.
fn field_locked(tree: &ContextTree, n: usize, name: &str, locked: &Vec<(usize, usize)>) -> (res:
    bool)
    requires
        n < tree.len(),
    ensures
        res == spec_field_locked(tree.nodes@, n as int, name@, locked@),
{
    let mut j: usize = 0;
    while j < locked.len()
        invariant
            j <= locked@.len(),
            n < tree.nodes@.len(),
            forall|i: int|
                0 <= i < j ==> !(locked@[i].0 == n && locked@[i].1 < tree.nodes@[n as int].fields@.len()
                    && tree.nodes@[n as int].fields@[locked@[i].1 as int].0@ == name@),
        decreases locked@.len() - j,
    {
        let (m, k) = locked[j];
        if m == n && k < tree.nodes[n].fields.len() {
            let key = chars_of(tree.nodes[n].fields[k].0.as_str());
            if chars_equal_str(key.as_slice(), name) {
                return true;
            }
        }
        j = j + 1;
    }
    false
}

/// The field `name` looked up from context `n` up through its parents.
fn get_till_root(tree: &ContextTree, n: usize, name: &str, locked: &Vec<(usize, usize)>) -> (res:
    Result<(usize, Item), LinkingError>)
    requires
        tree.wf(),
        n < tree.len(),
    ensures
        spec_outcome(res, spec_till_root(tree.nodes@, n as int, name@, locked@)),
        res matches Ok((m, _)) ==> m < tree.len(),
        res matches Ok((_, Item::Expression(m, _))) ==> m < tree.len(),
        !(res matches Ok((_, Item::Constant(_)))),
    decreases n,
{
    if field_locked(tree, n, name, locked) {
        let shown = node_name(tree, n);
        return Err(LinkingError::cyclic_reference(shown.as_str(), name));
    }
    match lookup(tree, n, name) {
        Some(item) => Ok((n, item)),
        None => {
            assert(tree.nodes@[n as int].node.wf());
            match tree.nodes[n].node.node_type().get_parent() {
                Some(p) => {
                    if p < n {
                        get_till_root(tree, p, name, locked)
                    } else {
                        let shown = node_name(tree, n);
                        Err(LinkingError::field_not_found(shown.as_str(), name))
                    }
                },
                None => {
                    let shown = node_name(tree, n);
                    Err(LinkingError::field_not_found(shown.as_str(), name))
                },
            }
        },
    }
}

/// The type of the member `name` of a value of type `t`.
fn member_type(t: &ValueType, name: &str) -> (res: Option<ValueType>)
    ensures
        res == spec_member_type(*t, name@),
{
    proof {
        reveal_strlit("year");
        reveal_strlit("month");
        reveal_strlit("day");
        reveal_strlit("weekday");
        reveal_strlit("hour");
        reveal_strlit("minute");
        reveal_strlit("second");
        reveal_strlit("time");
    }
    let c = chars_of(name);
    let s = c.as_slice();
    match t {
        ValueType::DateType => if chars_equal_str(s, "year") || chars_equal_str(s, "month")
            || chars_equal_str(s, "day") || chars_equal_str(s, "weekday") {
            Some(ValueType::NumberType)
        } else {
            None
        },
        ValueType::TimeType => if chars_equal_str(s, "hour") || chars_equal_str(s, "minute")
            || chars_equal_str(s, "second") {
            Some(ValueType::NumberType)
        } else {
            None
        },
        ValueType::DateTimeType => if chars_equal_str(s, "year") || chars_equal_str(s, "month")
            || chars_equal_str(s, "day") || chars_equal_str(s, "hour") || chars_equal_str(
            s,
            "minute",
        ) || chars_equal_str(s, "second") || chars_equal_str(s, "weekday") {
            Some(ValueType::NumberType)
        } else if chars_equal_str(s, "time") {
            Some(ValueType::TimeType)
        } else {
            None
        },
        _ => None,
    }
}

/// Browsing the rest of `path`, from position `index` on, out of the item `item` reached in
/// context `node`.
pub fn continue_browse(
    tree: &ContextTree,
    path: &Vec<String>,
    index: usize,
    node: usize,
    item: Item,
) -> (res: Result<BrowseResult, LinkingError>)
    requires
        tree.wf(),
        node < tree.len(),
        item matches Item::Expression(m, _) ==> m < tree.len(),
        item matches Item::Constant(v) ==> spec_value_wf(v),
    ensures
        spec_outcome(res, spec_continue(tree.nodes@, names_of(path@), index as int, node, item)),
        res matches Ok(BrowseResult::Found(n, i)) ==> n < tree.len() && (i matches Item::Expression(
            m,
            _,
        ) ==> m < tree.len()),
        res matches Ok(BrowseResult::OnExpression(n, _, _)) ==> n < tree.len(),
    decreases path@.len() - index,
{
    proof {
        reveal_strlit("");
    }
    assert(names_of(path@).len() == path@.len());
    if index >= path.len() {
        return Ok(BrowseResult::Found(node, item));
    }
    let name = path[index].as_str();
    assert(names_of(path@)[index as int] == name@);
    match item {
        Item::Definition(t) => match member_type(&t, name) {
            Some(m) => continue_browse(tree, path, index + 1, node, Item::Definition(m)),
            None => {
                let mut out: Vec<char> = Vec::new();
                push_str_chars(&mut out, "Cannot access '");
                push_str_chars(&mut out, name);
                push_str_chars(&mut out, "' from '");
                let shown = t.to_type_string();
                push_str_chars(&mut out, shown.as_str());
                push_str_chars(&mut out, "' definition");
                assert(out@ =~= spec_no_member_message(name@, t));
                Err(LinkingError::other_error(string_from_chars(out.as_slice())))
            },
        },
        Item::Object(c) => {
            if c < tree.nodes.len() {
                match get_item(tree, c, name) {
                    Ok(next) => continue_browse(tree, path, index + 1, c, next),
                    Err(e) => Err(e),
                }
            } else {
                assert(""@ =~= Seq::<char>::empty());
                Err(LinkingError::field_not_found("", name))
            }
        },
        Item::Expression(n, k) => Ok(BrowseResult::OnExpression(n, k, index)),
        Item::Constant(v) => match browse_value(&v, name) {
            Ok(m) => continue_browse(tree, path, index + 1, node, Item::Constant(m)),
            Err(e) => Err(e),
        },
    }
}

/// Browsing `path` from context `node`, looking its first name up through the parents
/// where `find_root` holds.
pub fn browse(
    tree: &ContextTree,
    node: usize,
    path: &Vec<String>,
    find_root: bool,
    locked: &Vec<(usize, usize)>,
) -> (res: Result<BrowseResult, LinkingError>)
    requires
        tree.wf(),
        node < tree.len(),
    ensures
        spec_outcome(res, spec_browse(tree.nodes@, node, names_of(path@), find_root, locked@)),
        res matches Ok(BrowseResult::Found(n, i)) ==> n < tree.len() && (i matches Item::Expression(
            m,
            _,
        ) ==> m < tree.len()),
        res matches Ok(BrowseResult::OnExpression(n, _, _)) ==> n < tree.len(),
{
    proof {
        reveal_strlit("");
    }
    assert(names_of(path@).len() == path@.len());
    if path.len() == 0 {
        let shown = node_name(tree, node);
        assert(""@ =~= Seq::<char>::empty());
        return Err(LinkingError::field_not_found(shown.as_str(), ""));
    }
    let first_name = path[0].as_str();
    assert(names_of(path@)[0] == first_name@);
    let first = if find_root {
        get_till_root(tree, node, first_name, locked)
    } else {
        match get_item(tree, node, first_name) {
            Ok(item) => Ok((node, item)),
            Err(e) => Err(e),
        }
    };
    match first {
        Ok((n, item)) => continue_browse(tree, path, 1, n, item),
        Err(e) => Err(e),
    }
}

/// What a variable path links to: a type, or a context.
#[derive(Debug, PartialEq)]
pub enum LinkedType {
    Value(ValueType),
    Object(usize),
}

/// The nesting that linking may reach before it gives up.
pub const LINK_DEPTH_LIMIT: usize = 100000;

/// The message of linking that nests deeper than it may.
pub open spec fn spec_depth_message() -> Seq<char> {
    "Linking nests deeper than its limit"@
}

/// The nearest context, from `i` up through the parents, that hangs under the field `name`.
pub open spec fn spec_named_ancestor(nodes: Seq<ContextNode>, i: int, name: Seq<char>) -> Option<int>
    decreases i,
{
    if !(0 <= i < nodes.len()) {
        None
    } else {
        let t = nodes[i].node.spec_node_type();
        if t is Child && t->Child_0@ == name {
            Some(i)
        } else {
            match crate::node_data::spec_parent(t) {
                Some(p) => if p < i {
                    spec_named_ancestor(nodes, p as int, name)
                } else {
                    None
                },
                None => None,
            }
        }
    }
}

/// Where linking `path` from context `from` starts browsing: the context, how many names
/// of the path that choice takes, and whether the first name is looked up through the
/// parents. A path that starts with a parameter is browsed from here; one that starts
/// with the name of this context or of an ancestor is browsed from the nearest such
/// context, that name taken; any other is looked up from here through the parents.
pub open spec fn spec_link_start(nodes: Seq<ContextNode>, from: int, path: Seq<Seq<char>>) -> (
    usize,
    int,
    bool,
) {
    if path.len() == 0 {
        (from as usize, 0, true)
    } else if spec_param_from(nodes[from].parameters@, path[0], 0) is Some {
        (from as usize, 0, false)
    } else {
        match spec_named_ancestor(nodes, from, path[0]) {
            Some(n) => (n as usize, 1, false),
            None => (from as usize, 0, true),
        }
    }
}

/// The name under which a context cycle is reported: the field the context hangs under, or
/// `<self>`.
pub open spec fn spec_self_label(nodes: Seq<ContextNode>, m: int) -> Seq<char> {
    let code = crate::node_data::spec_node_code(nodes[m].node.spec_node_type());
    if code.len() == 0 {
        "<self>"@
    } else {
        code
    }
}

/// Whether the pair `(n, k)` is among `pairs`.
pub open spec fn spec_has_pair(pairs: Seq<(usize, usize)>, n: int, k: int) -> bool {
    exists|j: int| 0 <= j < pairs.len() && pairs[j].0 == n && pairs[j].1 == k
}

/// Linking the variable `path` from context `from`, with the fields in `locked` being
/// linked field by field and the expressions in `active` being linked: `it` is the filter
/// item of the context; any other path is browsed from where it starts, each expression met
/// on the way linked to go on from its type, and what the path reaches linked last. Where
/// browsing fails for a path of several names from a root or isolated context, the link is
/// left for later, with an undefined type.
pub open spec fn spec_link_var(
    nodes: Seq<ContextNode>,
    from: int,
    path: Seq<Seq<char>>,
    locked: Seq<(usize, usize)>,
    active: Seq<(usize, usize)>,
    fuel: nat,
) -> Result<LinkedType, LinkFailure>
    decreases fuel, 0nat,
{
    if fuel == 0 || !(0 <= from < nodes.len()) {
        Err(LinkFailure::Other(spec_depth_message()))
    } else if path.len() == 1 && path[0] == "it"@ {
        match nodes[from].context_type {
            Some(t) => Ok(LinkedType::Value(t)),
            None => Err(LinkFailure::NotLinked),
        }
    } else {
        let (start, skipped, find_root) = spec_link_start(nodes, from, path);
        let rest = path.subrange(skipped, path.len() as int);
        let t = nodes[from].node.spec_node_type();
        let deferred = path.len() > 1 && (t is Root || t is Isolated);
        match spec_browse(nodes, start, rest, find_root, locked) {
            Err(f) => if deferred {
                Ok(LinkedType::Value(ValueType::UndefinedType))
            } else {
                Err(f)
            },
            Ok(br) => match spec_resolve(nodes, rest, br, locked, active, (fuel - 1) as nat) {
                Err(f) => if deferred {
                    Ok(LinkedType::Value(ValueType::UndefinedType))
                } else {
                    Err(f)
                },
                Ok((n, item)) => spec_link_item(nodes, n as int, item, locked, active, (fuel - 1) as nat),
            },
        }
    }
}

/// Going on from where browsing stopped: an expression met is linked, and browsing goes on
/// from its type (or from the context it links to), until the end of the path.
pub open spec fn spec_resolve(
    nodes: Seq<ContextNode>,
    path: Seq<Seq<char>>,
    br: BrowseResult,
    locked: Seq<(usize, usize)>,
    active: Seq<(usize, usize)>,
    fuel: nat,
) -> Result<(usize, Item), LinkFailure>
    decreases fuel, 0nat,
{
    if fuel == 0 {
        Err(LinkFailure::Other(spec_depth_message()))
    } else {
        match br {
            BrowseResult::Found(n, item) => Ok((n, item)),
            BrowseResult::OnExpression(n, k, rest) => match spec_link_entry(
                nodes,
                n as int,
                k as int,
                locked,
                active,
                (fuel - 1) as nat,
            ) {
                Err(f) => Err(f),
                Ok(linked) => {
                    let item = match linked {
                        LinkedType::Value(t) => Item::Definition(t),
                        LinkedType::Object(c) => Item::Object(c),
                    };
                    match spec_continue(nodes, path, rest as int, n, item) {
                        Err(f) => Err(f),
                        Ok(next) => spec_resolve(nodes, path, next, locked, active, (fuel - 1) as nat),
                    }
                },
            },
        }
    }
}

/// Linking what a name reached: a type is that type; a context is linked part by part and
/// gives itself; an expression is linked.
pub open spec fn spec_link_item(
    nodes: Seq<ContextNode>,
    n: int,
    item: Item,
    locked: Seq<(usize, usize)>,
    active: Seq<(usize, usize)>,
    fuel: nat,
) -> Result<LinkedType, LinkFailure>
    decreases fuel, 0nat,
{
    if fuel == 0 {
        Err(LinkFailure::Other(spec_depth_message()))
    } else {
        match item {
            Item::Definition(t) => Ok(LinkedType::Value(t)),
            Item::Object(c) => match spec_link_parts(nodes, c as int, 0, locked, active, (fuel - 1) as nat) {
                Ok(()) => Ok(LinkedType::Object(c)),
                Err(f) => Err(f),
            },
            Item::Expression(m, k) => spec_link_entry(nodes, m as int, k as int, locked, active, (fuel - 1) as nat),
            Item::Constant(v) => Ok(LinkedType::Value(spec_value_type(v))),
        }
    }
}

/// Linking the expression of field `k` of context `m`: an expression already being linked
/// is a cyclic reference of that context; otherwise its reads are linked in that context
/// and it gives its type (the type of the path it names, for an alias).
pub open spec fn spec_link_entry(
    nodes: Seq<ContextNode>,
    m: int,
    k: int,
    locked: Seq<(usize, usize)>,
    active: Seq<(usize, usize)>,
    fuel: nat,
) -> Result<LinkedType, LinkFailure>
    decreases fuel, 0nat,
{
    if fuel == 0 || !(0 <= m < nodes.len()) || !(0 <= k < nodes[m].fields@.len()) {
        Err(LinkFailure::Other(spec_depth_message()))
    } else if spec_has_pair(active, m, k) {
        Err(LinkFailure::CyclicReference(spec_node_name(nodes, m), spec_self_label(nodes, m)))
    } else {
        let inner = active.push((m as usize, k as usize));
        match nodes[m].fields@[k].1 {
            FieldContent::Expression(FieldExpression::Alias(p)) => spec_link_var(
                nodes,
                m,
                names_of(p@),
                locked,
                inner,
                (fuel - 1) as nat,
            ),
            FieldContent::Expression(FieldExpression::Typed(t, reads)) => match spec_link_reads(
                nodes,
                m,
                reads@,
                0,
                locked,
                inner,
                (fuel - 1) as nat,
            ) {
                Ok(()) => Ok(LinkedType::Value(t)),
                Err(f) => Err(f),
            },
            _ => Err(LinkFailure::Other(spec_depth_message())),
        }
    }
}

/// Linking the variable paths `reads`, from position `i` on, in context `m`, in order; the
/// first that fails stops it.
pub open spec fn spec_link_reads(
    nodes: Seq<ContextNode>,
    m: int,
    reads: Seq<Vec<String>>,
    i: int,
    locked: Seq<(usize, usize)>,
    active: Seq<(usize, usize)>,
    fuel: nat,
) -> Result<(), LinkFailure>
    decreases fuel, reads.len() - i,
{
    if fuel == 0 {
        Err(LinkFailure::Other(spec_depth_message()))
    } else if i < 0 || i >= reads.len() {
        Ok(())
    } else {
        match spec_link_var(nodes, m, names_of(reads[i]@), locked, active, (fuel - 1) as nat) {
            Err(f) => Err(f),
            Ok(_) => spec_link_reads(nodes, m, reads, i + 1, locked, active, fuel),
        }
    }
}

/// Linking context `c` part by part, from field `k` on: each expression field in order,
/// locked while it is linked (a field already locked, or an expression already being
/// linked, is a cyclic reference of the context and the field); then each child context.
pub open spec fn spec_link_parts(
    nodes: Seq<ContextNode>,
    c: int,
    k: int,
    locked: Seq<(usize, usize)>,
    active: Seq<(usize, usize)>,
    fuel: nat,
) -> Result<(), LinkFailure>
    decreases fuel, nodes[c].fields@.len() - k,
{
    if fuel == 0 || !(0 <= c < nodes.len()) {
        Err(LinkFailure::Other(spec_depth_message()))
    } else if k < 0 || k >= nodes[c].fields@.len() {
        spec_link_children(nodes, c, 0, locked, active, (fuel - 1) as nat)
    } else {
        let name = nodes[c].fields@[k].0@;
        match nodes[c].fields@[k].1 {
            FieldContent::Expression(_) => if spec_field_locked(nodes, c, name, locked)
                || spec_has_pair(active, c, k) {
                Err(LinkFailure::CyclicReference(spec_node_name(nodes, c), name))
            } else {
                match spec_link_entry(
                    nodes,
                    c,
                    k,
                    locked.push((c as usize, k as usize)),
                    active,
                    (fuel - 1) as nat,
                ) {
                    Err(f) => Err(f),
                    Ok(_) => spec_link_parts(nodes, c, k + 1, locked, active, fuel),
                }
            },
            _ => spec_link_parts(nodes, c, k + 1, locked, active, fuel),
        }
    }
}

/// Linking the child contexts of context `c`, from field `k` on, in order.
pub open spec fn spec_link_children(
    nodes: Seq<ContextNode>,
    c: int,
    k: int,
    locked: Seq<(usize, usize)>,
    active: Seq<(usize, usize)>,
    fuel: nat,
) -> Result<(), LinkFailure>
    decreases fuel, nodes[c].fields@.len() - k,
{
    if fuel == 0 || !(0 <= c < nodes.len()) {
        Err(LinkFailure::Other(spec_depth_message()))
    } else if k < 0 || k >= nodes[c].fields@.len() {
        Ok(())
    } else {
        match nodes[c].fields@[k].1 {
            FieldContent::Object(child) => match spec_link_parts(
                nodes,
                child as int,
                0,
                locked,
                active,
                (fuel - 1) as nat,
            ) {
                Err(f) => Err(f),
                Ok(()) => spec_link_children(nodes, c, k + 1, locked, active, fuel),
            },
            _ => spec_link_children(nodes, c, k + 1, locked, active, fuel),
        }
    }
}

/// The nearest context, from `i` up through the parents, that hangs under the field `name`.
fn named_ancestor(tree: &ContextTree, i: usize, name: &str) -> (res: Option<usize>)
    requires
        tree.wf(),
        i < tree.len(),
    ensures
        res == (match spec_named_ancestor(tree.nodes@, i as int, name@) {
            Some(n) => Some(n as usize),
            None => None::<usize>,
        }),
        res matches Some(n) ==> n < tree.len(),
        spec_named_ancestor(tree.nodes@, i as int, name@) matches Some(n) ==> 0 <= n < tree.len(),
    decreases i,
{
    match tree.nodes[i].node.node_type() {
        NodeDataEnum::Child(field, parent) => {
            let c = chars_of(field.as_str());
            if chars_equal_str(c.as_slice(), name) {
                return Some(i);
            }
            match parent {
                Some(p) => if *p < i {
                    named_ancestor(tree, *p, name)
                } else {
                    None
                },
                None => None,
            }
        },
        NodeDataEnum::Internal(Some(p)) => if *p < i {
            named_ancestor(tree, *p, name)
        } else {
            None
        },
        _ => None,
    }
}

/// Where linking `path` from context `from` starts browsing.
fn link_start(tree: &ContextTree, from: usize, path: &Vec<String>) -> (res: (usize, usize, bool))
    requires
        tree.wf(),
        from < tree.len(),
    ensures
        (res.0, res.1 as int, res.2) == spec_link_start(tree.nodes@, from as int, names_of(path@)),
        res.0 < tree.len(),
        res.1 <= path@.len(),
{
    assert(names_of(path@).len() == path@.len());
    if path.len() == 0 {
        return (from, 0, true);
    }
    let first = path[0].as_str();
    assert(names_of(path@)[0] == first@);
    if find_param(tree, from, first).is_some() {
        return (from, 0, false);
    }
    match named_ancestor(tree, from, first) {
        Some(n) => (n, 1, false),
        None => (from, 0, true),
    }
}

/// The rest of `path` from position `k` on.
fn path_from(path: &Vec<String>, k: usize) -> (res: Vec<String>)
    requires
        k <= path@.len(),
    ensures
        names_of(res@) == names_of(path@).subrange(k as int, path@.len() as int),
{
    let mut out: Vec<String> = Vec::new();
    let mut i: usize = k;
    while i < path.len()
        invariant
            k <= i <= path@.len(),
            names_of(out@) == names_of(path@).subrange(k as int, i as int),
        decreases path@.len() - i,
    {
        let c = chars_of(path[i].as_str());
        let ghost before = out@;
        out.push(string_from_chars(c.as_slice()));
        assert(names_of(out@) =~= names_of(before).push(path@[i as int]@));
        assert(names_of(out@) =~= names_of(path@).subrange(k as int, i + 1));
        i = i + 1;
    }
    out
}

/// Whether the pair `(n, k)` is among `pairs`.
fn has_pair(pairs: &Vec<(usize, usize)>, n: usize, k: usize) -> (res: bool)
    ensures
        res == spec_has_pair(pairs@, n as int, k as int),
{
    let mut j: usize = 0;
    while j < pairs.len()
        invariant
            j <= pairs@.len(),
            forall|i: int| 0 <= i < j ==> !(pairs@[i].0 == n && pairs@[i].1 == k),
        decreases pairs@.len() - j,
    {
        if pairs[j].0 == n && pairs[j].1 == k {
            return true;
        }
        j = j + 1;
    }
    false
}

/// The name under which a context cycle is reported.
fn self_label(tree: &ContextTree, m: usize) -> (res: String)
    requires
        m < tree.len(),
    ensures
        res@ == spec_self_label(tree.nodes@, m as int),
{
    let code = tree.nodes[m].node.node_type().to_code();
    if code.as_str().unicode_len() == 0 {
        String::from_str("<self>")
    } else {
        code
    }
}

/// The error of linking that nests deeper than it may.
fn depth_error() -> (res: LinkingError)
    ensures
        spec_is_failure(res, LinkFailure::Other(spec_depth_message())),
{
    LinkingError::other_error(String::from_str("Linking nests deeper than its limit"))
}

/// Linking the variable `path` from context `from`.
fn link_var(
    tree: &ContextTree,
    from: usize,
    path: &Vec<String>,
    locked: &mut Vec<(usize, usize)>,
    active: &mut Vec<(usize, usize)>,
    fuel: usize,
) -> (res: Result<LinkedType, LinkingError>)
    requires
        tree.wf(),
    ensures
        spec_outcome(
            res,
            spec_link_var(tree.nodes@, from as int, names_of(path@), old(locked)@, old(active)@, fuel as nat),
        ),
        final(locked)@ == old(locked)@,
        final(active)@ == old(active)@,
    decreases fuel, 0nat,
{
    if fuel == 0 || from >= tree.nodes.len() {
        return Err(depth_error());
    }
    proof {
        reveal_strlit("it");
    }
    assert(names_of(path@).len() == path@.len());
    if path.len() == 1 {
        let c = chars_of(path[0].as_str());
        assert(names_of(path@)[0] == path@[0]@);
        if chars_equal_str(c.as_slice(), "it") {
            return match &tree.nodes[from].context_type {
                Some(t) => Ok(LinkedType::Value(clone_type(t))),
                None => Err(LinkingError::not_linked()),
            };
        }
    }
    let (start, skipped, find_root) = link_start(tree, from, path);
    let rest = path_from(path, skipped);
    let deferred = path.len() > 1 && match tree.nodes[from].node.node_type() {
        NodeDataEnum::Root | NodeDataEnum::Isolated => true,
        _ => false,
    };
    let br = match browse(tree, start, &rest, find_root, locked) {
        Ok(br) => br,
        Err(e) => {
            if deferred {
                return Ok(LinkedType::Value(ValueType::UndefinedType));
            }
            return Err(e);
        },
    };
    let (n, item) = match resolve(tree, &rest, br, locked, active, fuel - 1) {
        Ok(found) => found,
        Err(e) => {
            if deferred {
                return Ok(LinkedType::Value(ValueType::UndefinedType));
            }
            return Err(e);
        },
    };
    link_item(tree, n, item, locked, active, fuel - 1)
}

/// Going on from where browsing stopped until the end of the path.
fn resolve(
    tree: &ContextTree,
    path: &Vec<String>,
    br: BrowseResult,
    locked: &mut Vec<(usize, usize)>,
    active: &mut Vec<(usize, usize)>,
    fuel: usize,
) -> (res: Result<(usize, Item), LinkingError>)
    requires
        tree.wf(),
        br matches BrowseResult::Found(n, _) ==> n < tree.len(),
        br matches BrowseResult::OnExpression(n, _, _) ==> n < tree.len(),
    ensures
        spec_outcome(
            res,
            spec_resolve(tree.nodes@, names_of(path@), br, old(locked)@, old(active)@, fuel as nat),
        ),
        res matches Ok((n, _)) ==> n < tree.len(),
        final(locked)@ == old(locked)@,
        final(active)@ == old(active)@,
    decreases fuel, 0nat,
{
    if fuel == 0 {
        return Err(depth_error());
    }
    match br {
        BrowseResult::Found(n, item) => Ok((n, item)),
        BrowseResult::OnExpression(n, k, rest) => {
            let linked = match link_entry(tree, n, k, locked, active, fuel - 1) {
                Ok(l) => l,
                Err(e) => return Err(e),
            };
            let item = match linked {
                LinkedType::Value(t) => Item::Definition(t),
                LinkedType::Object(c) => Item::Object(c),
            };
            match continue_browse(tree, path, rest, n, item) {
                Err(e) => Err(e),
                Ok(next) => resolve(tree, path, next, locked, active, fuel - 1),
            }
        },
    }
}

/// Linking what a name reached.
fn link_item(
    tree: &ContextTree,
    n: usize,
    item: Item,
    locked: &mut Vec<(usize, usize)>,
    active: &mut Vec<(usize, usize)>,
    fuel: usize,
) -> (res: Result<LinkedType, LinkingError>)
    requires
        tree.wf(),
    ensures
        spec_outcome(
            res,
            spec_link_item(tree.nodes@, n as int, item, old(locked)@, old(active)@, fuel as nat),
        ),
        final(locked)@ == old(locked)@,
        final(active)@ == old(active)@,
    decreases fuel, 0nat,
{
    if fuel == 0 {
        return Err(depth_error());
    }
    match item {
        Item::Definition(t) => Ok(LinkedType::Value(t)),
        Item::Object(c) => match link_parts(tree, c, 0, locked, active, fuel - 1) {
            Ok(()) => Ok(LinkedType::Object(c)),
            Err(e) => Err(e),
        },
        Item::Expression(m, k) => link_entry(tree, m, k, locked, active, fuel - 1),
        Item::Constant(v) => Ok(LinkedType::Value(v.get_type())),
    }
}

/// Linking the expression of field `k` of context `m`.
fn link_entry(
    tree: &ContextTree,
    m: usize,
    k: usize,
    locked: &mut Vec<(usize, usize)>,
    active: &mut Vec<(usize, usize)>,
    fuel: usize,
) -> (res: Result<LinkedType, LinkingError>)
    requires
        tree.wf(),
    ensures
        spec_outcome(
            res,
            spec_link_entry(tree.nodes@, m as int, k as int, old(locked)@, old(active)@, fuel as nat),
        ),
        final(locked)@ == old(locked)@,
        final(active)@ == old(active)@,
    decreases fuel, 0nat,
{
    if fuel == 0 || m >= tree.nodes.len() || k >= tree.nodes[m].fields.len() {
        return Err(depth_error());
    }
    if has_pair(active, m, k) {
        let shown = node_name(tree, m);
        let label = self_label(tree, m);
        return Err(LinkingError::cyclic_reference(shown.as_str(), label.as_str()));
    }
    active.push((m, k));
    let res = match &tree.nodes[m].fields[k].1 {
        FieldContent::Expression(FieldExpression::Alias(p)) => link_var(
            tree,
            m,
            p,
            locked,
            active,
            fuel - 1,
        ),
        FieldContent::Expression(FieldExpression::Typed(t, reads)) => match link_reads(
            tree,
            m,
            reads,
            0,
            locked,
            active,
            fuel - 1,
        ) {
            Ok(()) => Ok(LinkedType::Value(clone_type(t))),
            Err(e) => Err(e),
        },
        _ => Err(depth_error()),
    };
    active.pop();
    proof {
        assert(active@ =~= old(active)@);
    }
    res
}

/// Linking the variable paths `reads`, from position `i` on, in context `m`, in order.
fn link_reads(
    tree: &ContextTree,
    m: usize,
    reads: &Vec<Vec<String>>,
    i: usize,
    locked: &mut Vec<(usize, usize)>,
    active: &mut Vec<(usize, usize)>,
    fuel: usize,
) -> (res: Result<(), LinkingError>)
    requires
        tree.wf(),
    ensures
        spec_outcome(
            res,
            spec_link_reads(tree.nodes@, m as int, reads@, i as int, old(locked)@, old(active)@, fuel as nat),
        ),
        final(locked)@ == old(locked)@,
        final(active)@ == old(active)@,
    decreases fuel, reads@.len() - i,
{
    if fuel == 0 {
        return Err(depth_error());
    }
    if i >= reads.len() {
        return Ok(());
    }
    match link_var(tree, m, &reads[i], locked, active, fuel - 1) {
        Err(e) => Err(e),
        Ok(_) => link_reads(tree, m, reads, i + 1, locked, active, fuel),
    }
}

/// Linking context `c` part by part, from field `k` on.
fn link_parts(
    tree: &ContextTree,
    c: usize,
    k: usize,
    locked: &mut Vec<(usize, usize)>,
    active: &mut Vec<(usize, usize)>,
    fuel: usize,
) -> (res: Result<(), LinkingError>)
    requires
        tree.wf(),
    ensures
        spec_outcome(
            res,
            spec_link_parts(tree.nodes@, c as int, k as int, old(locked)@, old(active)@, fuel as nat),
        ),
        final(locked)@ == old(locked)@,
        final(active)@ == old(active)@,
    decreases fuel, tree.nodes@[c as int].fields@.len() - k,
{
    if fuel == 0 || c >= tree.nodes.len() {
        return Err(depth_error());
    }
    if k >= tree.nodes[c].fields.len() {
        return link_children(tree, c, 0, locked, active, fuel - 1);
    }
    match &tree.nodes[c].fields[k].1 {
        FieldContent::Expression(_) => {
            let name = tree.nodes[c].fields[k].0.as_str();
            if field_locked(tree, c, name, locked) || has_pair(active, c, k) {
                let shown = node_name(tree, c);
                return Err(LinkingError::cyclic_reference(shown.as_str(), name));
            }
            locked.push((c, k));
            let linked = link_entry(tree, c, k, locked, active, fuel - 1);
            locked.pop();
            proof {
                assert(locked@ =~= old(locked)@);
            }
            match linked {
                Err(e) => Err(e),
                Ok(_) => link_parts(tree, c, k + 1, locked, active, fuel),
            }
        },
        _ => link_parts(tree, c, k + 1, locked, active, fuel),
    }
}

/// Linking the child contexts of context `c`, from field `k` on, in order.
fn link_children(
    tree: &ContextTree,
    c: usize,
    k: usize,
    locked: &mut Vec<(usize, usize)>,
    active: &mut Vec<(usize, usize)>,
    fuel: usize,
) -> (res: Result<(), LinkingError>)
    requires
        tree.wf(),
    ensures
        spec_outcome(
            res,
            spec_link_children(tree.nodes@, c as int, k as int, old(locked)@, old(active)@, fuel as nat),
        ),
        final(locked)@ == old(locked)@,
        final(active)@ == old(active)@,
    decreases fuel, tree.nodes@[c as int].fields@.len() - k,
{
    if fuel == 0 || c >= tree.nodes.len() {
        return Err(depth_error());
    }
    if k >= tree.nodes[c].fields.len() {
        return Ok(());
    }
    match &tree.nodes[c].fields[k].1 {
        FieldContent::Object(child) => match link_parts(tree, *child, 0, locked, active, fuel - 1) {
            Err(e) => Err(e),
            Ok(()) => link_children(tree, c, k + 1, locked, active, fuel),
        },
        _ => link_children(tree, c, k + 1, locked, active, fuel),
    }
}

/// The type the variable `path` links to from context `from`, as `spec_link_var` says,
/// with nothing being linked around it.
pub fn link_variable(tree: &ContextTree, from: usize, path: &Vec<String>) -> (res: Result<
    LinkedType,
    LinkingError,
>)
    requires
        tree.wf(),
        from < tree.len(),
    ensures
        spec_outcome(
            res,
            spec_link_var(
                tree.nodes@,
                from as int,
                names_of(path@),
                Seq::empty(),
                Seq::empty(),
                LINK_DEPTH_LIMIT as nat,
            ),
        ),
{
    let mut locked: Vec<(usize, usize)> = Vec::new();
    let mut active: Vec<(usize, usize)> = Vec::new();
    link_var(tree, from, path, &mut locked, &mut active, LINK_DEPTH_LIMIT)
}

/// Linking context `c` part by part, as `spec_link_parts` says: each expression field, in
/// order, locked while it is linked, then each child context.
pub fn link_context(tree: &ContextTree, c: usize) -> (res: Result<(), LinkingError>)
    requires
        tree.wf(),
        c < tree.len(),
    ensures
        spec_outcome(
            res,
            spec_link_parts(tree.nodes@, c as int, 0, Seq::empty(), Seq::empty(), LINK_DEPTH_LIMIT as nat),
        ),
{
    let mut locked: Vec<(usize, usize)> = Vec::new();
    let mut active: Vec<(usize, usize)> = Vec::new();
    link_parts(tree, c, 0, &mut locked, &mut active, LINK_DEPTH_LIMIT)
}

/// Browsing `path` from context `from` as linking starts it, with nothing being linked.
pub fn browse_path(tree: &ContextTree, from: usize, path: &Vec<String>) -> (res: Result<
    BrowseResult,
    LinkingError,
>)
    requires
        tree.wf(),
        from < tree.len(),
    ensures
        ({
            let (start, skipped, find_root) = spec_link_start(tree.nodes@, from as int, names_of(path@));
            spec_outcome(
                res,
                spec_browse(
                    tree.nodes@,
                    start,
                    names_of(path@).subrange(skipped, path@.len() as int),
                    find_root,
                    Seq::empty(),
                ),
            )
        }),
{
    let (start, skipped, find_root) = link_start(tree, from, path);
    let rest = path_from(path, skipped);
    let locked: Vec<(usize, usize)> = Vec::new();
    browse(tree, start, &rest, find_root, &locked)
}

/// The type that linking context `c` part by part records for its field `k`: for an
/// expression field, the type it links to while it is locked; nothing for other fields.
pub open spec fn spec_field_link(nodes: Seq<ContextNode>, c: int, k: int) -> Option<LinkedType> {
    match nodes[c].fields@[k].1 {
        FieldContent::Expression(_) => match spec_link_entry(
            nodes,
            c,
            k,
            seq![(c as usize, k as usize)],
            Seq::empty(),
            (LINK_DEPTH_LIMIT - 1) as nat,
        ) {
            Ok(t) => Some(t),
            Err(_) => None,
        },
        _ => None,
    }
}

/// Links context `c` part by part, as `link_context` does, and gives the type recorded for
/// each of its fields, in order (as `spec_field_link` says).
pub fn link_context_types(tree: &ContextTree, c: usize) -> (res: Result<
    Vec<Option<LinkedType>>,
    LinkingError,
>)
    requires
        tree.wf(),
        c < tree.len(),
    ensures
        match spec_link_parts(tree.nodes@, c as int, 0, Seq::empty(), Seq::empty(), LINK_DEPTH_LIMIT as nat) {
            Ok(()) => res is Ok && res->Ok_0@.len() == tree.nodes@[c as int].fields@.len() && forall|k: int|
                0 <= k < res->Ok_0@.len() ==> #[trigger] res->Ok_0@[k] == spec_field_link(
                    tree.nodes@,
                    c as int,
                    k,
                ),
            Err(f) => res is Err && spec_is_failure(res->Err_0, f),
        },
{
    match link_context(tree, c) {
        Err(e) => return Err(e),
        Ok(()) => {},
    }
    let n = tree.nodes[c].fields.len();
    let mut types: Vec<Option<LinkedType>> = Vec::new();
    let mut k: usize = 0;
    while k < n
        invariant
            tree.wf(),
            c < tree.len(),
            n == tree.nodes@[c as int].fields@.len(),
            k <= n,
            types@.len() == k,
            forall|j: int| 0 <= j < k ==> #[trigger] types@[j] == spec_field_link(tree.nodes@, c as int, j),
        decreases n - k,
    {
        let t = match &tree.nodes[c].fields[k].1 {
            FieldContent::Expression(_) => {
                let mut locked: Vec<(usize, usize)> = Vec::new();
                locked.push((c, k));
                let mut active: Vec<(usize, usize)> = Vec::new();
                assert(locked@ =~= seq![(c, k)]);
                assert(active@ =~= Seq::<(usize, usize)>::empty());
                match link_entry(tree, c, k, &mut locked, &mut active, LINK_DEPTH_LIMIT - 1) {
                    Ok(t) => Some(t),
                    Err(_) => None,
                }
            },
            _ => None,
        };
        types.push(t);
        k = k + 1;
    }
    Ok(types)
}

} // verus!
