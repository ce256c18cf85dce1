use vstd::prelude::*;

use crate::text::chars_of;

verus! {

/// Whether `a` comes strictly before `b` in dictionary order of their characters.
pub open spec fn str_lt(a: Seq<char>, b: Seq<char>) -> bool
    decreases a.len(),
{
    if b.len() == 0 {
        false
    } else if a.len() == 0 {
        true
    } else if a[0] != b[0] {
        a[0] < b[0]
    } else {
        str_lt(a.drop_first(), b.drop_first())
    }
}

/// Whether each name comes strictly before every later one.
pub open spec fn names_strictly_sorted(names: Seq<Seq<char>>) -> bool {
    forall|i: int, j: int| 0 <= i < j < names.len() ==> str_lt(names[i], names[j])
}

/// Whether each name comes strictly before the next one.
pub open spec fn names_adjacent_sorted(names: Seq<Seq<char>>) -> bool {
    forall|i: int| 0 <= i < names.len() - 1 ==> #[trigger] str_lt(names[i], names[i + 1])
}

pub proof fn lemma_str_lt_irreflexive(a: Seq<char>)
    ensures
        !str_lt(a, a),
    decreases a.len(),
{
    if a.len() > 0 {
        lemma_str_lt_irreflexive(a.drop_first());
    }
}

pub proof fn lemma_str_lt_transitive(a: Seq<char>, b: Seq<char>, c: Seq<char>)
    requires
        str_lt(a, b),
        str_lt(b, c),
    ensures
        str_lt(a, c),
    decreases a.len(),
{
    if a.len() > 0 && b.len() > 0 && c.len() > 0 {
        if a[0] == b[0] && b[0] == c[0] {
            lemma_str_lt_transitive(a.drop_first(), b.drop_first(), c.drop_first());
        }
    }
}

pub proof fn lemma_str_lt_total(a: Seq<char>, b: Seq<char>)
    ensures
        a == b || str_lt(a, b) || str_lt(b, a),
    decreases a.len(),
{
    if a.len() > 0 && b.len() > 0 && a[0] == b[0] {
        lemma_str_lt_total(a.drop_first(), b.drop_first());
        if a.drop_first() == b.drop_first() {
            assert(a =~= seq![a[0]] + a.drop_first());
            assert(b =~= seq![b[0]] + b.drop_first());
        }
    } else if a.len() == 0 && b.len() == 0 {
        assert(a =~= b);
    }
}

pub proof fn lemma_str_lt_asymmetric(a: Seq<char>, b: Seq<char>)
    requires
        str_lt(a, b),
    ensures
        !str_lt(b, a),
        a != b,
{
    lemma_str_lt_irreflexive(a);
    if str_lt(b, a) {
        lemma_str_lt_transitive(a, b, a);
    }
}

/// Names in which each comes before the next are in order all along.
pub proof fn lemma_adjacent_sorted_is_sorted(names: Seq<Seq<char>>)
    requires
        names_adjacent_sorted(names),
    ensures
        names_strictly_sorted(names),
{
    assert forall|i: int, j: int| 0 <= i < j < names.len() implies str_lt(names[i], names[j]) by {
        lemma_adjacent_chain(names, i, j);
    }
}

proof fn lemma_adjacent_chain(names: Seq<Seq<char>>, i: int, j: int)
    requires
        names_adjacent_sorted(names),
        0 <= i < j < names.len(),
    ensures
        str_lt(names[i], names[j]),
    decreases j - i,
{
    assert(str_lt(names[j - 1], names[j - 1 + 1]));
    if j - 1 > i {
        lemma_adjacent_chain(names, i, j - 1);
        lemma_str_lt_transitive(names[i], names[j - 1], names[j]);
    }
}

/// Compares `a` with `b` in dictionary order: negative, zero or positive.
pub fn compare_names(a: &[char], b: &[char]) -> (res: i8)
    ensures
        res < 0 <==> str_lt(a@, b@),
        res == 0 <==> a@ == b@,
        res > 0 <==> str_lt(b@, a@),
{
    let mut i: usize = 0;
    let n = a.len();
    let m = b.len();
    assert(a@.skip(0) =~= a@);
    assert(b@.skip(0) =~= b@);
    while i < n && i < m && a[i] == b[i]
        invariant
            n == a@.len(),
            m == b@.len(),
            i <= n,
            i <= m,
            a@.take(i as int) == b@.take(i as int),
            str_lt(a@, b@) == str_lt(a@.skip(i as int), b@.skip(i as int)),
            str_lt(b@, a@) == str_lt(b@.skip(i as int), a@.skip(i as int)),
        decreases n - i,
    {
        assert(a@.skip(i as int).drop_first() =~= a@.skip(i + 1));
        assert(b@.skip(i as int).drop_first() =~= b@.skip(i + 1));
        i = i + 1;
        assert(a@.take(i as int) =~= a@.take(i - 1).push(a@[i - 1]));
        assert(b@.take(i as int) =~= b@.take(i - 1).push(b@[i - 1]));
    }
    proof {
        lemma_str_lt_irreflexive(a@);
        lemma_str_lt_total(a@, b@);
        if str_lt(a@, b@) {
            lemma_str_lt_asymmetric(a@, b@);
        }
        if str_lt(b@, a@) {
            lemma_str_lt_asymmetric(b@, a@);
        }
    }
    if i == n && i == m {
        assert(a@ =~= a@.take(i as int));
        assert(b@ =~= b@.take(i as int));
        0
    } else if i == n {
        assert(a@.skip(i as int).len() == 0);
        assert(b@.skip(i as int).len() > 0);
        -1
    } else if i == m {
        assert(b@.skip(i as int).len() == 0);
        assert(a@.skip(i as int).len() > 0);
        1
    } else if a[i] < b[i] {
        assert(a@.skip(i as int)[0] == a@[i as int]);
        assert(b@.skip(i as int)[0] == b@[i as int]);
        -1
    } else {
        assert(a@.skip(i as int)[0] == a@[i as int]);
        assert(b@.skip(i as int)[0] == b@[i as int]);
        1
    }
}

/// The position of `name` in `names`, which must be in strict dictionary order; found by
/// halving the range searched.
pub fn binary_search_names(names: &Vec<&'static str>, name: &str) -> (res: Option<usize>)
    requires
        names_strictly_sorted(names@.map_values(|s: &'static str| s@)),
    ensures
        res matches Some(i) ==> i < names@.len() && names@[i as int]@ == name@,
        res is None ==> forall|i: int| 0 <= i < names@.len() ==> names@[i]@ != name@,
{
    let ghost views = names@.map_values(|s: &'static str| s@);
    let key = chars_of(name);
    let mut lo: usize = 0;
    let mut hi: usize = names.len();
    while lo < hi
        invariant
            hi <= names@.len(),
            lo <= hi,
            key@ == name@,
            views == names@.map_values(|s: &'static str| s@),
            names_strictly_sorted(views),
            forall|i: int| 0 <= i < lo ==> str_lt(#[trigger] views[i], key@),
            forall|i: int| hi <= i < names@.len() ==> str_lt(key@, #[trigger] views[i]),
        decreases hi - lo,
    {
        let mid = lo + (hi - lo) / 2;
        let probe = chars_of(names[mid]);
        assert(views[mid as int] == probe@);
        let c = compare_names(key.as_slice(), probe.as_slice());
        if c == 0 {
            return Some(mid);
        } else if c < 0 {
            proof {
                assert forall|i: int| mid <= i < names@.len() implies str_lt(key@, #[trigger] views[i]) by {
                    if i > mid {
                        lemma_str_lt_transitive(key@, views[mid as int], views[i]);
                    }
                }
            }
            hi = mid;
        } else {
            proof {
                assert forall|i: int| 0 <= i < mid + 1 implies str_lt(#[trigger] views[i], key@) by {
                    if i < mid {
                        lemma_str_lt_transitive(views[i], views[mid as int], key@);
                    }
                }
            }
            lo = mid + 1;
        }
    }
    proof {
        assert forall|i: int| 0 <= i < names@.len() implies names@[i]@ != name@ by {
            assert(views[i] == names@[i]@);
            if i < lo {
                lemma_str_lt_asymmetric(views[i], key@);
            } else {
                lemma_str_lt_asymmetric(key@, views[i]);
            }
        }
    }
    None
}

} // verus!
