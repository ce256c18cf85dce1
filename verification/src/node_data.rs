use vstd::prelude::*;

use crate::errors::LinkingError;
use crate::text::{chars_equal_str, chars_of, string_from_chars};

verus! {

/// How a context node hangs in the tree of contexts; a parent is named by its position
/// among the nodes of a `NodeTree`, `None` standing for a parent not attached yet.
#[derive(Debug, Clone, PartialEq)]
pub enum NodeDataEnum {
    /// A field of its parent: the parent reaches it and it reaches the parent.
    Child(String, Option<usize>),
    /// Inner content (loops, inline functions) that reaches its parent.
    Internal(Option<usize>),
    /// Fully isolated content, such as a function body.
    Isolated,
    /// The root context.
    Root,
}

/// The parent a node type names.
pub open spec fn spec_parent(t: NodeDataEnum) -> Option<usize> {
    match t {
        NodeDataEnum::Child(_, parent) => parent,
        NodeDataEnum::Internal(parent) => parent,
        _ => None,
    }
}

/// The code of a node type: the field name of a child, `#child` for inner content,
/// nothing otherwise.
pub open spec fn spec_node_code(t: NodeDataEnum) -> Seq<char> {
    match t {
        NodeDataEnum::Child(name, _) => name@,
        NodeDataEnum::Internal(_) => "#child"@,
        _ => Seq::empty(),
    }
}

impl NodeDataEnum {
    /// The parent of the node, if it has one.
    pub fn get_parent(&self) -> (res: Option<usize>)
        ensures
            res == spec_parent(*self),
    {
        match self {
            NodeDataEnum::Child(_, parent) => *parent,
            NodeDataEnum::Internal(parent) => *parent,
            _ => None,
        }
    }

    /// The code of the node type.
    pub fn to_code(&self) -> (res: String)
        ensures
            res@ == spec_node_code(*self),
    {
        match self {
            NodeDataEnum::Child(name, _) => {
                let chars = chars_of(name.as_str());
                string_from_chars(chars.as_slice())
            },
            NodeDataEnum::Internal(_) => String::from_str("#child"),
            _ => String::new(),
        }
    }
}

/// The views of a list of names.
pub open spec fn names_of(v: Seq<String>) -> Seq<Seq<char>> {
    v.map_values(|s: String| s@)
}

/// The names of a list of named children.
pub open spec fn child_names(v: Seq<(String, usize)>) -> Seq<Seq<char>> {
    v.map_values(|p: (String, usize)| p.0@)
}

/// The names and positions of a list of named children.
pub open spec fn entries_view(v: Seq<(String, usize)>) -> Seq<(Seq<char>, usize)> {
    v.map_values(|p: (String, usize)| (p.0@, p.1))
}

/// A context node: how it hangs in the tree, which of its fields are being worked on,
/// and its children by name.
#[derive(Debug)]
pub struct NodeData {
    node_type: NodeDataEnum,
    object_field_locks: Vec<String>,
    childs: Vec<(String, usize)>,
}

impl NodeData {
    /// How the node hangs in the tree.
    pub closed spec fn spec_node_type(&self) -> NodeDataEnum {
        self.node_type
    }

    /// How the node hangs in the tree.
    pub fn node_type(&self) -> (res: &NodeDataEnum)
        ensures
            *res == self.spec_node_type(),
    {
        &self.node_type
    }

    /// Changes how the node hangs in the tree.
    pub fn set_node_type(&mut self, node_type: NodeDataEnum)
        requires
            old(self).wf(),
        ensures
            final(self).wf(),
            final(self).spec_node_type() == node_type,
            final(self).spec_locks() == old(self).spec_locks(),
            final(self).spec_childs() == old(self).spec_childs(),
    {
        self.node_type = node_type;
    }

    /// The children with their names, in the order they were added.
    pub closed spec fn spec_child_entries(&self) -> Seq<(Seq<char>, usize)> {
        entries_view(self.childs@)
    }

    /// The fields currently locked.
    pub closed spec fn spec_locks(&self) -> Set<Seq<char>> {
        names_of(self.object_field_locks@).to_set()
    }

    /// The children, by name.
    pub closed spec fn spec_childs(&self) -> Map<Seq<char>, usize> {
        Map::new(
            |name: Seq<char>| child_names(self.childs@).contains(name),
            |name: Seq<char>|
                self.childs@[child_names(self.childs@).index_of(name)].1,
        )
    }

    /// Locked fields and child names each appear once.
    pub closed spec fn wf(&self) -> bool {
        &&& names_of(self.object_field_locks@).no_duplicates()
        &&& child_names(self.childs@).no_duplicates()
    }

    /// A node with the given children and no locked field.
    pub fn new_fixed(childs: Vec<(String, usize)>, node_type: NodeDataEnum) -> (res: Self)
        requires
            child_names(childs@).no_duplicates(),
        ensures
            res.wf(),
            res.spec_node_type() == node_type,
            res.spec_locks() == Set::<Seq<char>>::empty(),
            res.spec_childs().dom() == child_names(childs@).to_set(),
            forall|i: int|
                0 <= i < childs@.len() ==> res.spec_childs()[#[trigger] childs@[i].0@]
                    == childs@[i].1,
    {
        let res = NodeData { node_type, childs, object_field_locks: Vec::new() };
        proof {
            assert(names_of(res.object_field_locks@) =~= Seq::<Seq<char>>::empty());
            assert(res.spec_locks() =~= Set::<Seq<char>>::empty());
            assert(res.spec_childs().dom() =~= child_names(childs@).to_set());
            assert forall|i: int| 0 <= i < childs@.len() implies res.spec_childs()[
                #[trigger] childs@[i].0@] == childs@[i].1 by {
                let names = child_names(childs@);
                assert(names[i] == childs@[i].0@);
                assert(names.contains(names[i]));
                let j = names.index_of(names[i]);
                assert(names[j] == names[i]);
            }
        }
        res
    }

    /// A node with no children and no locked field.
    pub fn new(node_type: NodeDataEnum) -> (res: Self)
        ensures
            res.wf(),
            res.spec_node_type() == node_type,
            res.spec_locks() == Set::<Seq<char>>::empty(),
            res.spec_childs() == Map::<Seq<char>, usize>::empty(),
    {
        let res = NodeData { node_type, childs: Vec::new(), object_field_locks: Vec::new() };
        proof {
            assert(names_of(res.object_field_locks@) =~= Seq::<Seq<char>>::empty());
            assert(res.spec_locks() =~= Set::<Seq<char>>::empty());
            assert(res.spec_childs() =~= Map::<Seq<char>, usize>::empty());
        }
        res
    }

    /// The field name under which the node hangs in its parent, for a child node.
    pub fn get_assigned_to_field(&self) -> (res: Option<String>)
        ensures
            match self.spec_node_type() {
                NodeDataEnum::Child(name, _) => res is Some && res->Some_0@ == name@,
                _ => res is None,
            },
    {
        match &self.node_type {
            NodeDataEnum::Child(name, _) => {
                let chars = chars_of(name.as_str());
                Some(string_from_chars(chars.as_slice()))
            },
            _ => None,
        }
    }

    /// The position of `field` among the locked fields.
    fn find_lock(&self, field: &str) -> (res: Option<usize>)
        ensures
            res matches Some(i) ==> i < self.object_field_locks@.len()
                && self.object_field_locks@[i as int]@ == field@,
            res is None ==> !names_of(self.object_field_locks@).contains(field@),
    {
        let mut i: usize = 0;
        while i < self.object_field_locks.len()
            invariant
                i <= self.object_field_locks@.len(),
                forall|k: int| 0 <= k < i ==> (#[trigger] self.object_field_locks@[k])@ != field@,
            decreases self.object_field_locks@.len() - i,
        {
            let name = chars_of(self.object_field_locks[i].as_str());
            if chars_equal_str(name.as_slice(), field) {
                return Some(i);
            }
            i = i + 1;
        }
        proof {
            if names_of(self.object_field_locks@).contains(field@) {
                let k = choose|k: int|
                    0 <= k < names_of(self.object_field_locks@).len() && names_of(
                        self.object_field_locks@,
                    )[k] == field@;
                assert(self.object_field_locks@[k]@ == field@);
            }
        }
        None
    }

    /// Whether `field` is locked.
    pub fn is_field_locked(&self, field: &str) -> (res: bool)
        ensures
            res == self.spec_locks().contains(field@),
    {
        let found = self.find_lock(field);
        proof {
            if let Some(i) = found {
                assert(names_of(self.object_field_locks@)[i as int] == field@);
            }
        }
        found.is_some()
    }

    /// Locks `field` while it is worked on; a field that is already locked is in a
    /// reference loop, reported as a cyclic reference of `node_name` and `field`. The name
    /// of a node is where it hangs in the tree of contexts (`Root`, `Root.order`, ...), which
    /// the node alone does not know: the caller passes it, as `context_tree::node_name`
    /// renders it.
    pub fn lock_field(&mut self, field: &str, node_name: &str) -> (res: Result<(), LinkingError>)
        requires
            old(self).wf(),
        ensures
            final(self).wf(),
            final(self).spec_node_type() == old(self).spec_node_type(),
            final(self).spec_childs() == old(self).spec_childs(),
            old(self).spec_locks().contains(field@) <==> res is Err,
            res is Ok ==> final(self).spec_locks() == old(self).spec_locks().insert(field@),
            res is Err ==> final(self).spec_locks() == old(self).spec_locks(),
            res matches Err(e) ==> e.error is CyclicReference && e.error->CyclicReference_0@
                == node_name@ && e.error->CyclicReference_1@ == field@ && e.context@.len() == 0,
    {
        if self.is_field_locked(field) {
            return Err(LinkingError::cyclic_reference(node_name, field));
        }
        let ghost before = self.object_field_locks@;
        self.object_field_locks.push(String::from_str(field));
        proof {
            assert(names_of(self.object_field_locks@) =~= names_of(before).push(field@));
            assert(names_of(before).push(field@).no_duplicates());
            assert(self.spec_locks() =~= names_of(before).to_set().insert(field@)) by {
                names_of(before).lemma_push_to_set_commute(field@);
            }
        }
        Ok(())
    }

    /// Unlocks `field`.
    pub fn unlock_field(&mut self, field: &str)
        requires
            old(self).wf(),
        ensures
            final(self).wf(),
            final(self).spec_node_type() == old(self).spec_node_type(),
            final(self).spec_childs() == old(self).spec_childs(),
            final(self).spec_locks() == old(self).spec_locks().remove(field@),
    {
        match self.find_lock(field) {
            None => {
                proof {
                    assert(self.spec_locks() =~= self.spec_locks().remove(field@));
                }
            },
            Some(i) => {
                let ghost before = names_of(self.object_field_locks@);
                self.object_field_locks.remove(i);
                proof {
                    let after = names_of(self.object_field_locks@);
                    assert(after =~= before.remove(i as int));
                    assert(before[i as int] == field@);
                    assert forall|x: Seq<char>| #[trigger] after.contains(x) <==> (before.contains(x)
                        && x != field@) by {
                        if after.contains(x) {
                            let k = choose|k: int| 0 <= k < after.len() && after[k] == x;
                            if k < i {
                                assert(before[k] == x);
                            } else {
                                assert(before[k + 1] == x);
                            }
                            assert(x != field@);
                        }
                        if before.contains(x) && x != field@ {
                            let k = choose|k: int| 0 <= k < before.len() && before[k] == x;
                            if k < i {
                                assert(after[k] == x);
                            } else {
                                assert(k != i);
                                assert(after[k - 1] == x);
                            }
                        }
                    }
                    assert(self.spec_locks() =~= before.to_set().remove(field@));
                    assert(after.no_duplicates()) by {
                        assert forall|a: int, b: int|
                            0 <= a < after.len() && 0 <= b < after.len() && a != b implies after[a]
                            != after[b] by {
                            let a2 = if a < i {
                                a
                            } else {
                                a + 1
                            };
                            let b2 = if b < i {
                                b
                            } else {
                                b + 1
                            };
                            assert(after[a] == before[a2]);
                            assert(after[b] == before[b2]);
                        }
                    }
                }
            },
        }
    }

    /// The children, by name.
    pub fn get_childs(&self) -> (res: Vec<(String, usize)>)
        requires
            self.wf(),
        ensures
            entries_view(res@) == self.spec_child_entries(),
            forall|k: int|
                0 <= k < res@.len() ==> self.spec_childs().contains_key(#[trigger] res@[k].0@)
                    && self.spec_childs()[res@[k].0@] == res@[k].1,
            forall|name: Seq<char>|
                self.spec_childs().contains_key(name) ==> exists|k: int|
                    0 <= k < res@.len() && (#[trigger] res@[k]).0@ == name,
    {
        let mut out: Vec<(String, usize)> = Vec::new();
        let mut i: usize = 0;
        while i < self.childs.len()
            invariant
                i <= self.childs@.len(),
                out@.len() == i,
                forall|k: int| 0 <= k < i ==> (#[trigger] out@[k]).0@ == self.childs@[k].0@ && out@[k].1 == self.childs@[k].1,
            decreases self.childs@.len() - i,
        {
            let name = chars_of(self.childs[i].0.as_str());
            out.push((string_from_chars(name.as_slice()), self.childs[i].1));
            i = i + 1;
        }
        assert(entries_view(out@) =~= entries_view(self.childs@));
        proof {
            let names = child_names(self.childs@);
            assert forall|k: int| 0 <= k < out@.len() implies self.spec_childs().contains_key(
                #[trigger] out@[k].0@,
            ) && self.spec_childs()[out@[k].0@] == out@[k].1 by {
                assert(names[k] == self.childs@[k].0@);
                assert(names.contains(names[k]));
                let j = names.index_of(names[k]);
                assert(names[j] == names[k]);
            }
            assert forall|name: Seq<char>| self.spec_childs().contains_key(name) implies exists|k: int|
                0 <= k < out@.len() && (#[trigger] out@[k]).0@ == name by {
                let j = names.index_of(name);
                assert(names[j] == name);
                assert(out@[j].0@ == name);
            }
        }
        out
    }

    /// The position of the child called `name`.
    fn find_child(&self, name: &str) -> (res: Option<usize>)
        ensures
            res matches Some(i) ==> i < self.childs@.len() && self.childs@[i as int].0@ == name@,
            res is None ==> !child_names(self.childs@).contains(name@),
    {
        let mut i: usize = 0;
        while i < self.childs.len()
            invariant
                i <= self.childs@.len(),
                forall|k: int| 0 <= k < i ==> (#[trigger] self.childs@[k]).0@ != name@,
            decreases self.childs@.len() - i,
        {
            let key = chars_of(self.childs[i].0.as_str());
            if chars_equal_str(key.as_slice(), name) {
                return Some(i);
            }
            i = i + 1;
        }
        proof {
            if child_names(self.childs@).contains(name@) {
                let k = choose|k: int|
                    0 <= k < child_names(self.childs@).len() && child_names(self.childs@)[k]
                        == name@;
                assert(self.childs@[k].0@ == name@);
            }
        }
        None
    }

    /// The child called `name`, if there is one.
    pub fn get_child(&self, name: &str) -> (res: Option<usize>)
        requires
            self.wf(),
        ensures
            res == (if self.spec_childs().contains_key(name@) {
                Some(self.spec_childs()[name@])
            } else {
                None
            }),
    {
        match self.find_child(name) {
            Some(i) => {
                proof {
                    let names = child_names(self.childs@);
                    assert(names[i as int] == name@);
                    let j = names.index_of(name@);
                    assert(names[j] == name@);
                    assert(j == i);
                }
                Some(self.childs[i].1)
            },
            None => None,
        }
    }

    /// Adds `child` under `name`, replacing a child of that name.
    pub fn add_child(&mut self, name: String, child: usize)
        requires
            old(self).wf(),
        ensures
            final(self).wf(),
            final(self).spec_node_type() == old(self).spec_node_type(),
            final(self).spec_locks() == old(self).spec_locks(),
            final(self).spec_childs() == old(self).spec_childs().insert(name@, child),
    {
        let key = chars_of(name.as_str());
        let found = self.find_child(name.as_str());
        let ghost before = self.childs@;
        match found {
            Some(i) => {
                self.childs.set(i, (name, child));
                proof {
                    let names = child_names(self.childs@);
                    assert(names =~= child_names(before));
                    assert(names[i as int] == name@);
                    assert(self.spec_childs() =~= old(self).spec_childs().insert(name@, child)) by {
                        assert forall|n: Seq<char>| #[trigger] names.contains(n) implies
                            self.spec_childs()[n] == old(self).spec_childs().insert(name@, child)[n] by {
                            let j = names.index_of(n);
                            if n == name@ {
                                assert(names[j] == names[i as int]);
                                assert(j == i);
                            } else {
                                assert(j != i);
                            }
                        }
                    }
                }
            },
            None => {
                self.childs.push((name, child));
                proof {
                    let names = child_names(self.childs@);
                    assert(names =~= child_names(before).push(name@));
                    assert(names.no_duplicates());
                    assert(self.spec_childs() =~= old(self).spec_childs().insert(name@, child)) by {
                        assert forall|n: Seq<char>| #[trigger] names.contains(n) <==> (child_names(
                            before,
                        ).contains(n) || n == name@) by {
                            if names.contains(n) && n != name@ {
                                let k = choose|k: int| 0 <= k < names.len() && names[k] == n;
                                assert(k < before.len());
                                assert(child_names(before)[k] == n);
                            }
                            if child_names(before).contains(n) {
                                let k = choose|k: int|
                                    0 <= k < child_names(before).len() && child_names(before)[k]
                                        == n;
                                assert(names[k] == n);
                            }
                            if n == name@ {
                                assert(names[before.len() as int] == n);
                            }
                        }
                        assert forall|n: Seq<char>| #[trigger] names.contains(n) implies
                            self.spec_childs()[n] == old(self).spec_childs().insert(name@, child)[n] by {
                            let j = names.index_of(n);
                            if n == name@ {
                                assert(names[before.len() as int] == n);
                                assert(j == before.len());
                            } else {
                                let k = child_names(before).index_of(n);
                                assert(child_names(before)[k] == n);
                                assert(names[k] == n);
                                assert(j == k);
                            }
                        }
                    }
                }
            },
        }
    }
}

impl NodeData {
    /// Hangs the node `child` (at position `child_id`) under `parent` (at position
    /// `parent_id`) when it is a child node with no parent yet: the parent gets it under its
    /// field name and it gets the parent. Any other node is left as it is.
    pub fn attach_child(
        parent: &mut NodeData,
        parent_id: usize,
        child: &mut NodeData,
        child_id: usize,
    )
        requires
            old(parent).wf(),
            old(child).wf(),
        ensures
            final(parent).wf(),
            final(child).wf(),
            final(parent).spec_node_type() == old(parent).spec_node_type(),
            final(parent).spec_locks() == old(parent).spec_locks(),
            final(child).spec_locks() == old(child).spec_locks(),
            final(child).spec_childs() == old(child).spec_childs(),
            match old(child).spec_node_type() {
                NodeDataEnum::Child(name, None) => {
                    &&& final(parent).spec_childs() == old(parent).spec_childs().insert(
                        name@,
                        child_id,
                    )
                    &&& final(child).spec_node_type() is Child
                    &&& final(child).spec_node_type()->Child_0@ == name@
                    &&& final(child).spec_node_type()->Child_1 == Some(parent_id)
                },
                _ => {
                    &&& final(parent).spec_childs() == old(parent).spec_childs()
                    &&& final(child).spec_node_type() == old(child).spec_node_type()
                },
            },
    {
        let name = match &child.node_type {
            NodeDataEnum::Child(name, None) => {
                let chars = chars_of(name.as_str());
                Some(string_from_chars(chars.as_slice()))
            },
            _ => None,
        };
        if let Some(name) = name {
            let key = chars_of(name.as_str());
            parent.add_child(name, child_id);
            child.set_node_type(NodeDataEnum::Child(string_from_chars(key.as_slice()), Some(parent_id)));
        }
    }
}

/// A locked field cannot be locked again until it is unlocked; unlocking a field just
/// locked gives back the locks held before.
pub proof fn lemma_lock_discipline(locks: Set<Seq<char>>, field: Seq<char>)
    requires
        !locks.contains(field),
    ensures
        locks.insert(field).contains(field),
        locks.insert(field).remove(field) == locks,
{
    assert(locks.insert(field).remove(field) =~= locks);
}

} // verus!
