use vstd::prelude::*;

use crate::list_ops::{spec_chunks, spec_clamped_index, spec_partition, spec_sublist_bounds};

verus! {

/// Partitioning a list into runs of a positive `size` and joining the runs back gives the
/// list; every run but the last holds `size` items, and the last one holds between one and
/// `size`.
pub proof fn lemma_partition_joins_back<T>(s: Seq<T>, size: int)
    requires
        size > 0,
    ensures
        spec_partition(s, size).flatten() == s,
        forall|k: int|
            0 <= k < spec_partition(s, size).len() - 1 ==> (#[trigger] spec_partition(
                s,
                size,
            )[k]).len() == size,
        spec_partition(s, size).len() > 0 ==> 0 < spec_partition(s, size).last().len() <= size,
    decreases s.len(),
{
    lemma_chunks_join_back(s, size as nat);
}

/// The runs of `size` items of `s` joined back give `s`, and their lengths are as
/// `partition` promises.
proof fn lemma_chunks_join_back<T>(s: Seq<T>, size: nat)
    requires
        size > 0,
    ensures
        spec_chunks(s, size).flatten() == s,
        forall|k: int|
            0 <= k < spec_chunks(s, size).len() - 1 ==> (#[trigger] spec_chunks(s, size)[k]).len()
                == size,
        spec_chunks(s, size).len() > 0 ==> 0 < spec_chunks(s, size).last().len() <= size,
    decreases s.len(),
{
    let c = spec_chunks(s, size);
    if s.len() == 0 {
        assert(c =~= Seq::<Seq<T>>::empty());
    } else if s.len() <= size {
        assert(c =~= seq![s]);
        assert(c.drop_first() =~= Seq::<Seq<T>>::empty());
        assert(c.drop_first().flatten() == Seq::<T>::empty());
        assert(c.flatten() == c.first() + c.drop_first().flatten());
        assert(s + Seq::<T>::empty() =~= s);
    } else {
        let rest = spec_chunks(s.skip(size as int), size);
        lemma_chunks_join_back(s.skip(size as int), size);
        assert(c == seq![s.take(size as int)] + rest);
        assert(c.drop_first() =~= rest);
        assert(c.first() == s.take(size as int));
        assert(c.flatten() == s.take(size as int) + rest.flatten());
        assert(s.take(size as int) + s.skip(size as int) =~= s);
        assert forall|k: int| 0 <= k < c.len() - 1 implies (#[trigger] c[k]).len() == size by {
            if k > 0 {
                assert(c[k] == rest[k - 1]);
            }
        }
        if rest.len() > 0 {
            assert(c.last() == rest.last());
        } else {
            assert(s.skip(size as int).len() > 0);
            assert(false) by {
                lemma_chunks_nonempty(s.skip(size as int), size);
            }
        }
    }
}

/// A non-empty list has at least one run.
proof fn lemma_chunks_nonempty<T>(s: Seq<T>, size: nat)
    requires
        size > 0,
        s.len() > 0,
    ensures
        spec_chunks(s, size).len() > 0,
{
    if s.len() > size {
        assert(spec_chunks(s, size) == seq![s.take(size as int)] + spec_chunks(
            s.skip(size as int),
            size,
        ));
    }
}

/// Removing the item at the 1-based `position` where `insertBefore` has just put a value,
/// for a position from the first item to one past the last, gives the list back.
pub proof fn lemma_remove_undoes_insert_before<T>(items: Seq<T>, position: int, value: T)
    requires
        1 <= position <= items.len() + 1,
    ensures
        spec_clamped_index(items.len() as int, position) == position - 1,
        items.insert(position - 1, value).remove(position - 1) == items,
{
    assert(items.insert(position - 1, value).remove(position - 1) =~= items);
}

/// Reversing the items of a list twice gives them back.
pub proof fn lemma_reverse_items_twice<T>(items: Seq<T>)
    ensures
        items.reverse().reverse() == items,
{
    assert(items.reverse().reverse() =~= items);
}

/// `sublist` from the first position, with no length, is the whole list.
pub proof fn lemma_sublist_from_first_is_whole(len: int)
    requires
        len >= 0,
    ensures
        spec_sublist_bounds(len, 1, None) == (0int, len),
{
}

} // verus!
