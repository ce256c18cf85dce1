use vstd::prelude::*;

use crate::errors::{RuntimeError, RuntimeErrorEnum};
use crate::types::{clone_type, ValueType};

verus! {

/// The smallest of `a` and `b`.
pub open spec fn spec_min(a: int, b: int) -> int {
    if a < b {
        a
    } else {
        b
    }
}

/// The 0-based position that the 1-based `position` names in a list of `len` items,
/// brought within `0..=len`.
pub open spec fn spec_clamped_index(len: int, position: int) -> int {
    if position - 1 < 0 {
        0
    } else {
        spec_min(position - 1, len)
    }
}

/// Where `sublist` cuts a list of `len` items: from the 1-based `start`, `length` items or
/// up to the end; a range that would end before it starts is empty.
pub open spec fn spec_sublist_bounds(len: int, start: int, length: Option<i64>) -> (int, int) {
    let i = spec_clamped_index(len, start);
    let j = match length {
        Some(l) => spec_min(i + l, len),
        None => len,
    };
    (
        i,
        if j < i {
            i
        } else {
            j
        },
    )
}

/// The `sublist` function on the items of a list: from the 1-based position `start`,
/// `length` items, or all items to the end where no length is given. A start before the
/// first item is read as the first item, one past the end gives no items, and so does a
/// negative length.
pub fn eval_sublist<T>(items: Vec<T>, start: i64, length: Option<i64>) -> (res: Vec<T>)
    requires
        start > i64::MIN,
        length matches Some(l) ==> spec_clamped_index(items@.len() as int, start as int) + l
            <= i64::MAX,
    ensures
        res@ == items@.subrange(
            spec_sublist_bounds(items@.len() as int, start as int, length).0,
            spec_sublist_bounds(items@.len() as int, start as int, length).1,
        ),
{
    let n = items.len();
    let i: usize = clamped_index(n, start);
    let j: usize = match length {
        Some(l) => {
            let end: i128 = i as i128 + l as i128;
            if end < i as i128 {
                i
            } else if end < n as i128 {
                end as usize
            } else {
                n
            }
        },
        None => n,
    };
    let mut rest = items;
    let mut tail = rest.split_off(i);
    tail.truncate(j - i);
    tail
}

/// The 0-based position that the 1-based `position` names in a list of `len` items,
/// brought within `0..=len`.
fn clamped_index(len: usize, position: i64) -> (res: usize)
    requires
        position > i64::MIN,
    ensures
        res as int == spec_clamped_index(len as int, position as int),
{
    let p: i64 = position - 1;
    if p < 0 {
        0
    } else if (p as u64) < (len as u64) {
        p as usize
    } else {
        len
    }
}

/// The `insertBefore` function on the items of a list: `value` placed before the item at
/// the 1-based `position`; a position before the first item puts it first, one past the end
/// puts it last.
pub fn eval_insert_before<T>(items: Vec<T>, position: i64, value: T) -> (res: Vec<T>)
    requires
        position > i64::MIN,
    ensures
        res@ == items@.insert(spec_clamped_index(items@.len() as int, position as int), value),
{
    let idx = clamped_index(items.len(), position);
    let mut out = items;
    out.insert(idx, value);
    out
}

/// The `remove` function on the items of a list: the item at the 1-based `position` taken
/// out; a position outside the list leaves the items as they are.
pub fn eval_remove<T>(items: Vec<T>, position: i64) -> (res: Vec<T>)
    requires
        position > i64::MIN,
    ensures
        res@ == (if 1 <= position <= items@.len() {
            items@.remove(position - 1)
        } else {
            items@
        }),
{
    let p: i64 = position - 1;
    if p < 0 || (p as u64) >= (items.len() as u64) {
        return items;
    }
    let mut out = items;
    let _removed = out.remove(p as usize);
    out
}

/// The `append` function on the items of a list: the values added after its items, in
/// order.
pub fn eval_append<T>(items: Vec<T>, values: Vec<T>) -> (res: Vec<T>)
    ensures
        res@ == items@ + values@,
{
    let mut out = items;
    let mut extra = values;
    out.append(&mut extra);
    out
}

/// The `concatenate` function on the items of lists: the items of each list in turn.
pub fn eval_concatenate<T>(lists: Vec<Vec<T>>) -> (res: Vec<T>)
    ensures
        res@ == spec_views(lists@).flatten(),
{
    let ghost all = lists@;
    let mut rest = lists;
    let mut out: Vec<T> = Vec::new();
    assert(Seq::<T>::empty() + spec_views(all).flatten() =~= spec_views(all).flatten());
    while rest.len() > 0
        invariant
            out@ + spec_views(rest@).flatten() == spec_views(all).flatten(),
        decreases rest@.len(),
    {
        let ghost before = rest@;
        let ghost before_out = out@;
        let mut next = rest.remove(0);
        let ghost piece = next@;
        out.append(&mut next);
        assert(spec_views(before).first() == piece);
        assert(spec_views(before).drop_first() =~= spec_views(rest@));
        assert(spec_views(before).flatten() == piece + spec_views(rest@).flatten());
        assert(out@ =~= before_out + piece);
        assert(before_out + (piece + spec_views(rest@).flatten()) =~= out@ + spec_views(
            rest@,
        ).flatten());
    }
    assert(spec_views(rest@) =~= Seq::<Seq<T>>::empty());
    assert(out@ + Seq::<T>::empty() =~= out@);
    out
}

/// The items of a list in the opposite order, as `reverse` gives them.
pub fn reverse_items<T>(items: Vec<T>) -> (res: Vec<T>)
    ensures
        res@ == items@.reverse(),
{
    let ghost all = items@;
    let mut rest = items;
    let mut out: Vec<T> = Vec::new();
    while rest.len() > 0
        invariant
            out@ == all.subrange(rest@.len() as int, all.len() as int).reverse(),
            rest@ == all.subrange(0, rest@.len() as int),
            rest@.len() <= all.len(),
        decreases rest@.len(),
    {
        let ghost k = rest@.len() as int;
        let item = rest.pop().unwrap();
        out.push(item);
        assert(out@ =~= all.subrange(k - 1, all.len() as int).reverse());
        assert(rest@ =~= all.subrange(0, k - 1));
    }
    assert(all.subrange(0, all.len() as int) =~= all);
    out
}

/// The consecutive runs of `size` items of `s`, in order; the last run holds what is left.
pub open spec fn spec_chunks<T>(s: Seq<T>, size: nat) -> Seq<Seq<T>>
    decreases s.len(),
{
    if size == 0 || s.len() == 0 {
        Seq::empty()
    } else if s.len() <= size {
        seq![s]
    } else {
        seq![s.take(size as int)] + spec_chunks(s.skip(size as int), size)
    }
}

/// The `partition` function on the items of a list: runs of `size` items, the last one
/// holding what is left; a size of zero or less gives a single empty run.
pub open spec fn spec_partition<T>(s: Seq<T>, size: int) -> Seq<Seq<T>> {
    if size <= 0 {
        seq![Seq::empty()]
    } else {
        spec_chunks(s, size as nat)
    }
}

/// The views of a list of lists.
pub open spec fn spec_views<T>(v: Seq<Vec<T>>) -> Seq<Seq<T>> {
    v.map_values(|x: Vec<T>| x@)
}

/// The `partition` function on the items of a list: runs of `size` items, the last one
/// holding what is left; a size of zero or less gives a single empty run.
pub fn eval_partition<T>(items: Vec<T>, size: i64) -> (res: Vec<Vec<T>>)
    ensures
        spec_views(res@) == spec_partition(items@, size as int),
{
    if size <= 0 {
        let mut one: Vec<Vec<T>> = Vec::new();
        one.push(Vec::new());
        assert(spec_views(one@) =~= seq![Seq::<T>::empty()]);
        return one;
    }
    let ghost all = items@;
    let ghost step = size as nat;
    let mut rest = items;
    let mut chunks: Vec<Vec<T>> = Vec::new();
    assert(spec_views(chunks@) =~= Seq::<Seq<T>>::empty());
    assert(Seq::<Seq<T>>::empty() + spec_chunks(rest@, step) =~= spec_chunks(rest@, step));
    while rest.len() > 0
        invariant
            size > 0,
            step == size as nat,
            spec_views(chunks@) + spec_chunks(rest@, step) == spec_chunks(all, step),
        decreases rest@.len(),
    {
        if (rest.len() as u64) <= (size as u64) {
            let ghost r = rest@;
            assert(spec_chunks(r, step) == seq![r]);
            let last = rest;
            rest = Vec::new();
            chunks.push(last);
            assert(spec_views(chunks@) =~= spec_views(chunks@.drop_last()) + seq![r]);
            assert(spec_chunks(rest@, step) =~= Seq::<Seq<T>>::empty());
            assert(spec_views(chunks@) + spec_chunks(rest@, step) =~= spec_views(chunks@));
        } else {
            let ghost r = rest@;
            let tail = rest.split_off(size as usize);
            assert(rest@ =~= r.take(size as int));
            assert(tail@ =~= r.skip(size as int));
            assert(spec_chunks(r, step) == seq![r.take(size as int)] + spec_chunks(
                r.skip(size as int),
                step,
            ));
            let head = rest;
            chunks.push(head);
            rest = tail;
            assert(spec_views(chunks@) =~= spec_views(chunks@.drop_last()) + seq![
                r.take(size as int),
            ]);
            assert(spec_views(chunks@) + spec_chunks(rest@, step) =~= spec_views(
                chunks@.drop_last(),
            ) + spec_chunks(r, step));
        }
    }
    assert(spec_chunks(rest@, step) =~= Seq::<Seq<T>>::empty());
    assert(spec_views(chunks@) + spec_chunks(rest@, step) =~= spec_views(chunks@));
    chunks
}

/// An item of a list as `all` and `any` see it: a boolean, or a value of another type.
#[derive(Debug, PartialEq)]
pub enum Truth {
    Boolean(bool),
    Other(ValueType),
}

/// What `all` gives on a list: the first item that is not `true` decides, `false` for
/// `false` and an error naming the type of any other value; `true` where every item is
/// `true`.
pub open spec fn spec_all(items: Seq<Truth>) -> Result<bool, ValueType>
    decreases items.len(),
{
    if items.len() == 0 {
        Ok(true)
    } else {
        match items[0] {
            Truth::Boolean(true) => spec_all(items.drop_first()),
            Truth::Boolean(false) => Ok(false),
            Truth::Other(t) => Err(t),
        }
    }
}

/// What `any` gives on a list: the first item that is not `false` decides, `true` for
/// `true` and an error naming the type of any other value; `false` where every item is
/// `false`.
pub open spec fn spec_any(items: Seq<Truth>) -> Result<bool, ValueType>
    decreases items.len(),
{
    if items.len() == 0 {
        Ok(false)
    } else {
        match items[0] {
            Truth::Boolean(false) => spec_any(items.drop_first()),
            Truth::Boolean(true) => Ok(true),
            Truth::Other(t) => Err(t),
        }
    }
}

/// `res` is what a spec result of `all` or `any` gives: the same boolean, or the error that
/// the value type is not supported.
pub open spec fn spec_truth_result(res: Result<bool, RuntimeError>, expected: Result<bool, ValueType>) -> bool {
    match expected {
        Ok(b) => res == Ok::<bool, RuntimeError>(b),
        Err(t) => res is Err && res->Err_0.error == RuntimeErrorEnum::TypeNotSupported(t)
            && res->Err_0.context@.len() == 0,
    }
}

/// The `all` function on a list.
pub fn eval_all(items: &Vec<Truth>) -> (res: Result<bool, RuntimeError>)
    ensures
        spec_truth_result(res, spec_all(items@)),
{
    eval_truths(items, true)
}

/// The `any` function on a list.
pub fn eval_any(items: &Vec<Truth>) -> (res: Result<bool, RuntimeError>)
    ensures
        spec_truth_result(res, spec_any(items@)),
{
    eval_truths(items, false)
}

/// `all` (where `every` holds) or `any` (where it does not) on a list.
fn eval_truths(items: &Vec<Truth>, every: bool) -> (res: Result<bool, RuntimeError>)
    ensures
        spec_truth_result(
            res,
            if every {
                spec_all(items@)
            } else {
                spec_any(items@)
            },
        ),
{
    let mut i: usize = 0;
    assert(items@.skip(0) =~= items@);
    while i < items.len()
        invariant
            i <= items@.len(),
            every ==> spec_all(items@) == spec_all(items@.skip(i as int)),
            !every ==> spec_any(items@) == spec_any(items@.skip(i as int)),
        decreases items@.len() - i,
    {
        let ghost s = items@.skip(i as int);
        assert(s[0] == items@[i as int]);
        assert(s.drop_first() =~= items@.skip(i as int + 1));
        match &items[i] {
            Truth::Boolean(b) => {
                if *b != every {
                    return Ok(*b);
                }
            },
            Truth::Other(t) => {
                return Err(RuntimeError::type_not_supported(clone_type(t)));
            },
        }
        i = i + 1;
    }
    assert(items@.skip(i as int) =~= Seq::<Truth>::empty());
    Ok(every)
}

} // verus!
