use vstd::prelude::*;

use crate::node_data::{names_of, spec_parent, NodeData, NodeDataEnum};
use crate::text::{chars_equal_str, chars_of};

verus! {

/// Whether node `id` of `nodes` is a child hanging under the field `name`.
pub open spec fn spec_named(nodes: Seq<NodeData>, id: int, name: Seq<char>) -> bool {
    &&& 0 <= id < nodes.len()
    &&& nodes[id].spec_node_type() is Child
    &&& nodes[id].spec_node_type()->Child_0@ == name
}

/// Climbing from node `current` through the parents, taking at most `fuel` nodes: the
/// first one that hangs under the field `name`.
pub open spec fn spec_first_named_ancestor(
    nodes: Seq<NodeData>,
    current: Option<int>,
    name: Seq<char>,
    fuel: nat,
) -> Option<int>
    decreases fuel,
{
    if fuel == 0 {
        None
    } else {
        match current {
            None => None,
            Some(n) => if !(0 <= n < nodes.len()) {
                None
            } else if spec_named(nodes, n, name) {
                Some(n)
            } else {
                spec_first_named_ancestor(
                    nodes,
                    match spec_parent(nodes[n].spec_node_type()) {
                        Some(p) => Some(p as int),
                        None => None,
                    },
                    name,
                    (fuel - 1) as nat,
                )
            },
        }
    }
}

/// Climbs from node `start` through the parents to the nearest node that hangs under the
/// field `name`. Every chain of parents without repeats is walked to its end: the climb
/// takes at most as many nodes as there are.
pub fn find_named_ancestor(nodes: &Vec<NodeData>, start: usize, name: &str) -> (res: Option<
    usize,
>)
    ensures
        match spec_first_named_ancestor(nodes@, Some(start as int), name@, nodes@.len()) {
            Some(n) => res == Some(n as usize),
            None => res is None,
        },
{
    let mut current: Option<usize> = Some(start);
    let mut fuel: usize = nodes.len();
    while fuel > 0
        invariant
            fuel <= nodes@.len(),
            spec_first_named_ancestor(nodes@, Some(start as int), name@, nodes@.len())
                == spec_first_named_ancestor(
                nodes@,
                match current {
                    Some(c) => Some(c as int),
                    None => None,
                },
                name@,
                fuel as nat,
            ),
        decreases fuel,
    {
        match current {
            None => {
                return None;
            },
            Some(n) => {
                if n >= nodes.len() {
                    return None;
                }
                let assigned = nodes[n].get_assigned_to_field();
                let hit = match &assigned {
                    Some(field) => {
                        let chars = chars_of(field.as_str());
                        chars_equal_str(chars.as_slice(), name)
                    },
                    None => false,
                };
                if hit {
                    return Some(n);
                }
                current = nodes[n].node_type().get_parent();
                fuel = fuel - 1;
            },
        }
    }
    None
}

/// Where the lookup of a variable path starts.
#[derive(Clone, Copy, Debug, PartialEq, Eq, Structural)]
pub enum PathStart {
    /// The path is `it`: the item that a filter is looking at.
    ContextVariable,
    /// Browse from node `node`, the first `skipped` names of the path being taken by the
    /// choice of that node, looking the rest up from the root where `find_root` holds.
    Browse { node: usize, skipped: usize, find_root: bool },
}

/// Where the lookup of `path` starts from node `current`, whose function has the
/// parameters `parameters`: `it` alone is the filter's item; a path that starts with a
/// parameter is browsed from here; a path that starts with the name of this node or of an
/// ancestor is browsed from the nearest such node, that name taken; any other path is
/// browsed from here, looking from the root.
pub open spec fn spec_path_start(
    path: Seq<Seq<char>>,
    parameters: Seq<Seq<char>>,
    nodes: Seq<NodeData>,
    current: usize,
) -> PathStart {
    if path.len() == 1 && path[0] == "it"@ {
        PathStart::ContextVariable
    } else if path.len() == 0 {
        PathStart::Browse { node: current, skipped: 0, find_root: true }
    } else if parameters.contains(path[0]) {
        PathStart::Browse { node: current, skipped: 0, find_root: false }
    } else {
        match spec_first_named_ancestor(nodes, Some(current as int), path[0], nodes.len()) {
            Some(n) => PathStart::Browse { node: n as usize, skipped: 1, find_root: false },
            None => PathStart::Browse { node: current, skipped: 0, find_root: true },
        }
    }
}

/// Whether `name` is one of `names`.
fn contains_name(names: &Vec<String>, name: &str) -> (res: bool)
    ensures
        res == names_of(names@).contains(name@),
{
    let mut i: usize = 0;
    while i < names.len()
        invariant
            i <= names@.len(),
            forall|j: int| 0 <= j < i ==> (#[trigger] names@[j])@ != name@,
        decreases names@.len() - i,
    {
        let chars = chars_of(names[i].as_str());
        if chars_equal_str(chars.as_slice(), name) {
            assert(names_of(names@)[i as int] == name@);
            return true;
        }
        i = i + 1;
    }
    proof {
        if names_of(names@).contains(name@) {
            let k = choose|k: int| 0 <= k < names_of(names@).len() && names_of(names@)[k] == name@;
            assert(names@[k]@ == name@);
        }
    }
    false
}

/// Decides where the lookup of the variable `path` starts from node `current` of `nodes`,
/// whose function has the parameters `parameters`.
pub fn variable_path_start(
    path: &Vec<String>,
    parameters: &Vec<String>,
    nodes: &Vec<NodeData>,
    current: usize,
) -> (res: PathStart)
    ensures
        res == spec_path_start(names_of(path@), names_of(parameters@), nodes@, current),
{
    proof {
        reveal_strlit("it");
    }
    if path.len() == 1 {
        let chars = chars_of(path[0].as_str());
        if chars_equal_str(chars.as_slice(), "it") {
            return PathStart::ContextVariable;
        }
    }
    if path.len() == 0 {
        return PathStart::Browse { node: current, skipped: 0, find_root: true };
    }
    let first = path[0].as_str();
    assert(names_of(path@)[0] == first@);
    if contains_name(parameters, first) {
        return PathStart::Browse { node: current, skipped: 0, find_root: false };
    }
    match find_named_ancestor(nodes, current, first) {
        Some(n) => PathStart::Browse { node: n, skipped: 1, find_root: false },
        None => PathStart::Browse { node: current, skipped: 0, find_root: true },
    }
}

} // verus!
