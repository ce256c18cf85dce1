use vstd::prelude::*;

use crate::errors::{RuntimeError, RuntimeErrorEnum};
use crate::operators::ComparatorEnum;
use crate::types::{ValueType, ValueOrSv};
use crate::value_ops::{compare_string_values, spec_string_values_equal};
use crate::values::{spec_value_type, ArrayValue, ValueEnum};

verus! {

broadcast use vstd::std_specs::vec::axiom_vec_index_decreases;

/// Whether two values are equal: numbers, booleans, dates, times, dates with times and
/// durations that are the same, strings with the same characters, and lists of the same
/// item type whose items are equal one by one.
pub open spec fn spec_values_equal(a: ValueEnum, b: ValueEnum) -> bool
    decreases a, 0nat,
{
    match (a, b) {
        (ValueEnum::NumberValue(x), ValueEnum::NumberValue(y)) => x == y,
        (ValueEnum::BooleanValue(x), ValueEnum::BooleanValue(y)) => x == y,
        (ValueEnum::StringValue(x), ValueEnum::StringValue(y)) => spec_string_values_equal(x, y),
        (ValueEnum::DateValue(x), ValueEnum::DateValue(y)) => x == y,
        (ValueEnum::TimeValue(x), ValueEnum::TimeValue(y)) => x == y,
        (ValueEnum::DateTimeValue(x), ValueEnum::DateTimeValue(y)) => x == y,
        (ValueEnum::DurationValue(x), ValueEnum::DurationValue(y)) => x == y,
        (
            ValueEnum::Array(ArrayValue::EmptyUntyped),
            ValueEnum::Array(ArrayValue::EmptyUntyped),
        ) => true,
        (
            ValueEnum::Array(ArrayValue::PrimitivesArray { values: v1, item_type: t1 }),
            ValueEnum::Array(ArrayValue::PrimitivesArray { values: v2, item_type: t2 }),
        ) => t1 == t2 && v1.len() == v2.len() && spec_items_equal(v1, v2, v1.len() as nat),
        _ => false,
    }
}

/// Whether the first `n` items of `v1` and `v2` are equal one by one.
pub open spec fn spec_items_equal(v1: Vec<ValueEnum>, v2: Vec<ValueEnum>, n: nat) -> bool
    decreases v1, n,
{
    if n == 0 || n > v1.len() || n > v2.len() {
        n == 0
    } else {
        spec_items_equal(v1, v2, (n - 1) as nat) && spec_values_equal(v1[n - 1], v2[n - 1])
    }
}

/// Whether two values are equal, as `spec_values_equal` says.
pub fn values_equal(a: &ValueEnum, b: &ValueEnum) -> (res: bool)
    ensures
        res == spec_values_equal(*a, *b),
    decreases a,
{
    match (a, b) {
        (ValueEnum::NumberValue(x), ValueEnum::NumberValue(y)) => *x == *y,
        (ValueEnum::BooleanValue(x), ValueEnum::BooleanValue(y)) => *x == *y,
        (ValueEnum::StringValue(x), ValueEnum::StringValue(y)) => match compare_string_values(
            x,
            ComparatorEnum::Equals,
            y,
        ) {
            Ok(r) => r,
            Err(_) => false,
        },
        (ValueEnum::DateValue(x), ValueEnum::DateValue(y)) => match (x, y) {
            (ValueOrSv::Value(p), ValueOrSv::Value(q)) => *p == *q,
            (ValueOrSv::Sv(p), ValueOrSv::Sv(q)) => *p == *q,
            _ => false,
        },
        (ValueEnum::TimeValue(x), ValueEnum::TimeValue(y)) => match (x, y) {
            (ValueOrSv::Value(p), ValueOrSv::Value(q)) => *p == *q,
            (ValueOrSv::Sv(p), ValueOrSv::Sv(q)) => *p == *q,
            _ => false,
        },
        (ValueEnum::DateTimeValue(x), ValueEnum::DateTimeValue(y)) => match (x, y) {
            (ValueOrSv::Value(p), ValueOrSv::Value(q)) => *p == *q,
            (ValueOrSv::Sv(p), ValueOrSv::Sv(q)) => *p == *q,
            _ => false,
        },
        (ValueEnum::DurationValue(x), ValueEnum::DurationValue(y)) => match (x, y) {
            (ValueOrSv::Value(p), ValueOrSv::Value(q)) => *p == *q,
            (ValueOrSv::Sv(p), ValueOrSv::Sv(q)) => *p == *q,
            _ => false,
        },
        (
            ValueEnum::Array(ArrayValue::EmptyUntyped),
            ValueEnum::Array(ArrayValue::EmptyUntyped),
        ) => true,
        (
            ValueEnum::Array(ArrayValue::PrimitivesArray { values: v1, item_type: t1 }),
            ValueEnum::Array(ArrayValue::PrimitivesArray { values: v2, item_type: t2 }),
        ) => {
            if !t1.same_as(t2) || v1.len() != v2.len() {
                return false;
            }
            proof {
                let x = a->Array_0;
                assert(decreases_to!(*a => x));
                assert(decreases_to!(x => x->values));
            }
            let mut i: usize = 0;
            while i < v1.len()
                invariant
                    i <= v1@.len(),
                    v1@.len() == v2@.len(),
                    spec_items_equal(*v1, *v2, i as nat),
                    decreases_to!(*a => *v1),
                    *a == ValueEnum::Array(
                        ArrayValue::PrimitivesArray { values: *v1, item_type: *t1 },
                    ),
                    *b == ValueEnum::Array(
                        ArrayValue::PrimitivesArray { values: *v2, item_type: *t2 },
                    ),
                    *t1 == *t2,
                decreases v1@.len() - i,
            {
                proof {
                    assert(decreases_to!(*v1 => v1[i as int]));
                    assert(decreases_to!(*a => v1[i as int]));
                }
                if !values_equal(&v1[i], &v2[i]) {
                    proof {
                        lemma_items_equal_prefix(*v1, *v2, v1@.len() as nat, (i + 1) as nat);
                    }
                    return false;
                }
                i = i + 1;
            }
            true
        },
        _ => false,
    }
}

/// Items equal up to `n` are equal up to any `k <= n`, and item `k - 1` among them is equal.
proof fn lemma_items_equal_prefix(v1: Vec<ValueEnum>, v2: Vec<ValueEnum>, n: nat, k: nat)
    requires
        1 <= k <= n,
        n <= v1.len(),
        n <= v2.len(),
    ensures
        spec_items_equal(v1, v2, n) ==> spec_values_equal(v1[k - 1], v2[k - 1]),
    decreases n,
{
    if k < n {
        lemma_items_equal_prefix(v1, v2, (n - 1) as nat, k);
    }
}

/// Whether some item of `items` is equal to `v`.
pub open spec fn spec_holds_equal(items: Seq<ValueEnum>, v: ValueEnum) -> bool {
    exists|i: int| 0 <= i < items.len() && #[trigger] spec_values_equal(items[i], v)
}

/// The items of `items` with later items equal to an earlier one left out, in order.
pub open spec fn spec_distinct(items: Seq<ValueEnum>) -> Seq<ValueEnum>
    decreases items.len(),
{
    if items.len() == 0 {
        Seq::empty()
    } else {
        let before = spec_distinct(items.drop_last());
        if spec_holds_equal(before, items.last()) {
            before
        } else {
            before.push(items.last())
        }
    }
}

/// The items of `items` that repeat an earlier item, each once, in the order of their
/// first repeat.
pub open spec fn spec_duplicates(items: Seq<ValueEnum>) -> Seq<ValueEnum>
    decreases items.len(),
{
    if items.len() == 0 {
        Seq::empty()
    } else {
        let prefix = items.drop_last();
        let before = spec_duplicates(prefix);
        if spec_holds_equal(spec_distinct(prefix), items.last()) && !spec_holds_equal(
            before,
            items.last(),
        ) {
            before.push(items.last())
        } else {
            before
        }
    }
}

/// Whether some item of `items` is equal to `v`.
fn holds_equal(items: &Vec<ValueEnum>, v: &ValueEnum) -> (res: bool)
    ensures
        res == spec_holds_equal(items@, *v),
{
    let mut i: usize = 0;
    while i < items.len()
        invariant
            i <= items@.len(),
            forall|j: int| 0 <= j < i ==> !spec_values_equal(#[trigger] items@[j], *v),
        decreases items@.len() - i,
    {
        if values_equal(&items[i], v) {
            return true;
        }
        i = i + 1;
    }
    false
}

/// The list of `values` with the item type `item_type`, or the type of its first item where
/// the item type is undefined and there is a first item.
pub open spec fn spec_built_item_type(values: Seq<ValueEnum>, item_type: ValueType) -> ValueType {
    if item_type == ValueType::UndefinedType && values.len() > 0 {
        spec_value_type(values[0])
    } else {
        item_type
    }
}

/// A list of `values`; its item type is `item_type`, or the type of the first item where
/// `item_type` is undefined.
pub fn build_array_from_parts(values: Vec<ValueEnum>, item_type: ValueType) -> (res: ValueEnum)
    ensures
        res == ValueEnum::Array(
            ArrayValue::PrimitivesArray {
                values,
                item_type: spec_built_item_type(values@, item_type),
            },
        ),
{
    let t = if item_type.same_as(&ValueType::UndefinedType) && values.len() > 0 {
        values[0].get_type()
    } else {
        item_type
    };
    ValueEnum::Array(ArrayValue::PrimitivesArray { values, item_type: t })
}

/// The error of a list function given a value of type `t` that it does not take.
pub open spec fn spec_not_supported(e: RuntimeError, t: ValueType) -> bool {
    e.error == RuntimeErrorEnum::TypeNotSupported(t) && e.context@.len() == 0
}

/// The distinct items of a list, the first of each kind kept, in order, with the list's
/// item type (or the type of the first item where it is undefined); a list with no item
/// type stays as it is; any other value is not supported.
pub fn eval_distinct(value: ValueEnum) -> (res: Result<ValueEnum, RuntimeError>)
    ensures
        match value {
            ValueEnum::Array(ArrayValue::EmptyUntyped) => res == Ok::<ValueEnum, RuntimeError>(
                ValueEnum::Array(ArrayValue::EmptyUntyped),
            ),
            ValueEnum::Array(ArrayValue::PrimitivesArray { values: items, item_type: t }) => res
                matches Ok(ValueEnum::Array(ArrayValue::PrimitivesArray { values, item_type }))
                && values@ == spec_distinct(items@) && item_type == spec_built_item_type(
                spec_distinct(items@),
                t,
            ),
            _ => res is Err && spec_not_supported(res->Err_0, spec_value_type(value)),
        },
{
    match value {
        ValueEnum::Array(ArrayValue::EmptyUntyped) => Ok(ValueEnum::Array(ArrayValue::EmptyUntyped)),
        ValueEnum::Array(ArrayValue::PrimitivesArray { values, item_type }) => {
            let ghost items = values@;
            let n = values.len();
            let mut rest = values;
            let mut out: Vec<ValueEnum> = Vec::new();
            let mut i: usize = 0;
            while i < n
                invariant
                    n == items.len(),
                    i <= n,
                    rest@ == items.subrange(i as int, n as int),
                    out@ == spec_distinct(items.take(i as int)),
                decreases n - i,
            {
                let v = rest.remove(0);
                assert(v == items[i as int]);
                assert(rest@ =~= items.subrange(i as int + 1, n as int));
                assert(items.take(i + 1).drop_last() =~= items.take(i as int));
                assert(items.take(i + 1).last() == v);
                if !holds_equal(&out, &v) {
                    out.push(v);
                }
                i = i + 1;
            }
            assert(items.take(n as int) =~= items);
            Ok(build_array_from_parts(out, item_type))
        },
        other => Err(RuntimeError::type_not_supported(other.get_type())),
    }
}

/// The items of a list that repeat an earlier item, each once, in the order of their first
/// repeat, with the list's item type (or the type of the first of them where it is
/// undefined); a list with no item type stays as it is; any other value is not supported.
pub fn eval_duplicates(value: ValueEnum) -> (res: Result<ValueEnum, RuntimeError>)
    ensures
        match value {
            ValueEnum::Array(ArrayValue::EmptyUntyped) => res == Ok::<ValueEnum, RuntimeError>(
                ValueEnum::Array(ArrayValue::EmptyUntyped),
            ),
            ValueEnum::Array(ArrayValue::PrimitivesArray { values: items, item_type: t }) => res
                matches Ok(ValueEnum::Array(ArrayValue::PrimitivesArray { values, item_type }))
                && values@ == spec_duplicates(items@) && item_type == spec_built_item_type(
                spec_duplicates(items@),
                t,
            ),
            _ => res is Err && spec_not_supported(res->Err_0, spec_value_type(value)),
        },
{
    match value {
        ValueEnum::Array(ArrayValue::EmptyUntyped) => Ok(ValueEnum::Array(ArrayValue::EmptyUntyped)),
        ValueEnum::Array(ArrayValue::PrimitivesArray { values, item_type }) => {
            let ghost items = values@;
            let n = values.len();
            let mut rest = values;
            let mut uniq: Vec<ValueEnum> = Vec::new();
            let mut dups: Vec<ValueEnum> = Vec::new();
            let mut i: usize = 0;
            while i < n
                invariant
                    n == items.len(),
                    i <= n,
                    rest@ == items.subrange(i as int, n as int),
                    uniq@ == spec_distinct(items.take(i as int)),
                    dups@ == spec_duplicates(items.take(i as int)),
                decreases n - i,
            {
                let v = rest.remove(0);
                assert(v == items[i as int]);
                assert(rest@ =~= items.subrange(i as int + 1, n as int));
                assert(items.take(i + 1).drop_last() =~= items.take(i as int));
                assert(items.take(i + 1).last() == v);
                if holds_equal(&uniq, &v) {
                    if !holds_equal(&dups, &v) {
                        dups.push(v);
                    }
                } else {
                    uniq.push(v);
                }
                i = i + 1;
            }
            assert(items.take(n as int) =~= items);
            Ok(build_array_from_parts(dups, item_type))
        },
        other => Err(RuntimeError::type_not_supported(other.get_type())),
    }
}

/// Whether `v` is a number, a boolean, a date, a time, a date with a time or a duration:
/// a value with no text or items inside.
pub open spec fn spec_plain_value(v: ValueEnum) -> bool {
    v is NumberValue || v is BooleanValue || v is DateValue || v is TimeValue
        || v is DateTimeValue || v is DurationValue
}

/// Two numbers, booleans, dates, times, dates with times or durations are equal exactly
/// when they are the same value: for dates, the same year, month and day.
pub proof fn lemma_plain_values_equal(a: ValueEnum, b: ValueEnum)
    requires
        spec_plain_value(a),
    ensures
        spec_values_equal(a, b) <==> a == b,
{
}

/// Two strings are equal exactly when they hold the same characters.
pub proof fn lemma_string_values_equal(a: String, b: String)
    ensures
        spec_values_equal(
            ValueEnum::StringValue(crate::types::StringEnum::String(a)),
            ValueEnum::StringValue(crate::types::StringEnum::String(b)),
        ) <==> a@ == b@,
{
}

/// Every item kept by `distinct` is an item of the list.
proof fn lemma_distinct_from_items(items: Seq<ValueEnum>)
    ensures
        forall|x: int|
            0 <= x < spec_distinct(items).len() ==> exists|j: int|
                0 <= j < items.len() && items[j] == #[trigger] spec_distinct(items)[x],
    decreases items.len(),
{
    if items.len() > 0 {
        let prefix = items.drop_last();
        lemma_distinct_from_items(prefix);
        let d = spec_distinct(items);
        assert forall|x: int| 0 <= x < d.len() implies exists|j: int|
            0 <= j < items.len() && items[j] == #[trigger] d[x] by {
            if x < spec_distinct(prefix).len() {
                let j = choose|j: int| 0 <= j < prefix.len() && prefix[j] == spec_distinct(prefix)[x];
                assert(items[j] == d[x]);
            } else {
                assert(items[items.len() - 1] == d[x]);
            }
        }
    }
}

/// `distinct` keeps each item that is equal to no earlier item, and keeps only items of the
/// list, in the order they come.
pub proof fn lemma_distinct_keeps_new_items(items: Seq<ValueEnum>, i: int)
    requires
        0 <= i < items.len(),
        forall|j: int| 0 <= j < i ==> !spec_values_equal(#[trigger] items[j], items[i]),
    ensures
        spec_distinct(items).contains(items[i]),
        forall|x: int|
            0 <= x < spec_distinct(items).len() ==> items.contains(
                #[trigger] spec_distinct(items)[x],
            ),
    decreases items.len(),
{
    lemma_distinct_from_items(items);
    assert forall|x: int| 0 <= x < spec_distinct(items).len() implies items.contains(
        #[trigger] spec_distinct(items)[x],
    ) by {
        let j = choose|j: int| 0 <= j < items.len() && items[j] == spec_distinct(items)[x];
    }
    let prefix = items.drop_last();
    if i == items.len() - 1 {
        let before = spec_distinct(prefix);
        lemma_distinct_from_items(prefix);
        if spec_holds_equal(before, items[i]) {
            let m = choose|m: int| 0 <= m < before.len() && #[trigger] spec_values_equal(before[m], items[i]);
            let j = choose|j: int| 0 <= j < prefix.len() && prefix[j] == before[m];
            assert(items[j] == prefix[j]);
            assert(false);
        }
        assert(spec_distinct(items) == before.push(items[i]));
        assert(spec_distinct(items)[before.len() as int] == items[i]);
    } else {
        assert(prefix[i] == items[i]);
        assert forall|j: int| 0 <= j < i implies !spec_values_equal(#[trigger] prefix[j], prefix[i]) by {
            assert(prefix[j] == items[j]);
        }
        lemma_distinct_keeps_new_items(prefix, i);
        let before = spec_distinct(prefix);
        let k = choose|k: int| 0 <= k < before.len() && before[k] == items[i];
        if spec_holds_equal(before, items.last()) {
            assert(spec_distinct(items)[k] == items[i]);
        } else {
            assert(spec_distinct(items)[k] == items[i]);
        }
    }
}

/// On a list of numbers, booleans, dates, times, dates with times or durations, `distinct`
/// keeps each item that differs from every earlier one: two different dates both stay.
pub proof fn lemma_distinct_keeps_different_plain_items(items: Seq<ValueEnum>, i: int)
    requires
        0 <= i < items.len(),
        forall|j: int| 0 <= j < items.len() ==> spec_plain_value(#[trigger] items[j]),
        forall|j: int| 0 <= j < i ==> #[trigger] items[j] != items[i],
    ensures
        spec_distinct(items).contains(items[i]),
{
    assert forall|j: int| 0 <= j < i implies !spec_values_equal(#[trigger] items[j], items[i]) by {
        lemma_plain_values_equal(items[j], items[i]);
    }
    lemma_distinct_keeps_new_items(items, i);
}

/// Two lists whose items are numbers, booleans, dates, times, dates with times or durations
/// are equal exactly when they have the same item type and the same items in the same
/// order.
pub proof fn lemma_plain_lists_equal(v1: Vec<ValueEnum>, t1: ValueType, v2: Vec<ValueEnum>, t2: ValueType)
    requires
        forall|j: int| 0 <= j < v1@.len() ==> spec_plain_value(#[trigger] v1@[j]),
    ensures
        spec_values_equal(
            ValueEnum::Array(ArrayValue::PrimitivesArray { values: v1, item_type: t1 }),
            ValueEnum::Array(ArrayValue::PrimitivesArray { values: v2, item_type: t2 }),
        ) <==> (t1 == t2 && v1@ == v2@),
{
    if v1@.len() == v2@.len() {
        lemma_plain_items_equal(v1, v2, v1@.len() as nat);
        if spec_items_equal(v1, v2, v1@.len() as nat) {
            assert(v1@ =~= v2@);
        }
    }
}

/// The first `n` items of two lists of plain values are equal one by one exactly when they
/// are the same.
proof fn lemma_plain_items_equal(v1: Vec<ValueEnum>, v2: Vec<ValueEnum>, n: nat)
    requires
        n <= v1@.len(),
        n <= v2@.len(),
        forall|j: int| 0 <= j < v1@.len() ==> spec_plain_value(#[trigger] v1@[j]),
    ensures
        spec_items_equal(v1, v2, n) <==> (forall|j: int| 0 <= j < n ==> v1@[j] == v2@[j]),
    decreases n,
{
    if n > 0 {
        lemma_plain_items_equal(v1, v2, (n - 1) as nat);
        lemma_plain_values_equal(v1@[n - 1], v2@[n - 1]);
        assert(v1[n - 1] == v1@[n - 1]);
        assert(v2[n - 1] == v2@[n - 1]);
    }
}

/// On a list of numbers, booleans, dates, times, dates with times or durations, the items
/// that `distinct` keeps are all different from one another.
pub proof fn lemma_distinct_plain_no_repeats(items: Seq<ValueEnum>)
    requires
        forall|j: int| 0 <= j < items.len() ==> spec_plain_value(#[trigger] items[j]),
    ensures
        spec_distinct(items).no_duplicates(),
    decreases items.len(),
{
    if items.len() > 0 {
        let prefix = items.drop_last();
        assert forall|j: int| 0 <= j < prefix.len() implies spec_plain_value(#[trigger] prefix[j]) by {
            assert(prefix[j] == items[j]);
        }
        lemma_distinct_plain_no_repeats(prefix);
        let before = spec_distinct(prefix);
        if !spec_holds_equal(before, items.last()) {
            assert forall|m: int| 0 <= m < before.len() implies #[trigger] before[m] != items.last() by {
                lemma_plain_values_equal(items.last(), before[m]);
                if before[m] == items.last() {
                    lemma_plain_values_equal(before[m], items.last());
                    assert(spec_values_equal(before[m], items.last()));
                }
            }
            let d = before.push(items.last());
            assert forall|x: int, y: int| 0 <= x < d.len() && 0 <= y < d.len() && x != y implies d[x] != d[y] by {
                if x < before.len() && y < before.len() {
                } else if x == before.len() {
                    assert(before[y] != items.last());
                } else {
                    assert(before[x] != items.last());
                }
            }
        }
    }
}

/// On a list of numbers, booleans, dates, times, dates with times or durations, each item
/// that `duplicates` gives occurs at least twice in the list: at two positions `i < j`.
pub proof fn lemma_duplicates_occur_twice(items: Seq<ValueEnum>, x: int) -> (pos: (int, int))
    requires
        forall|j: int| 0 <= j < items.len() ==> spec_plain_value(#[trigger] items[j]),
        0 <= x < spec_duplicates(items).len(),
    ensures
        0 <= pos.0 < pos.1 < items.len(),
        items[pos.0] == items[pos.1],
        items[pos.1] == spec_duplicates(items)[x],
    decreases items.len(),
{
    let prefix = items.drop_last();
    assert forall|j: int| 0 <= j < prefix.len() implies spec_plain_value(#[trigger] prefix[j]) by {
        assert(prefix[j] == items[j]);
    }
    let before = spec_duplicates(prefix);
    let last = (items.len() - 1) as int;
    if x < before.len() {
        let (i, j) = lemma_duplicates_occur_twice(prefix, x);
        assert(items[i] == prefix[i] && items[j] == prefix[j]);
        (i, j)
    } else {
        lemma_distinct_from_items(prefix);
        let u = spec_distinct(prefix);
        assert(spec_holds_equal(u, items.last()));
        let m = choose|m: int| 0 <= m < u.len() && #[trigger] spec_values_equal(u[m], items.last());
        let i = choose|i: int| 0 <= i < prefix.len() && prefix[i] == u[m];
        assert(items[i] == prefix[i]);
        lemma_plain_values_equal(items[i], items.last());
        (i, last)
    }
}

/// Items added at the end of a list never change what `distinct` keeps of the items
/// before them: what it keeps of a first part of the list starts what it keeps of the whole.
pub proof fn lemma_distinct_of_prefix(items: Seq<ValueEnum>, k: int)
    requires
        0 <= k <= items.len(),
    ensures
        spec_distinct(items.take(k)).len() <= spec_distinct(items).len(),
        spec_distinct(items).take(spec_distinct(items.take(k)).len() as int) == spec_distinct(
            items.take(k),
        ),
    decreases items.len() - k,
{
    if k == items.len() {
        assert(items.take(k) =~= items);
        assert(spec_distinct(items).take(spec_distinct(items).len() as int) =~= spec_distinct(items));
    } else {
        lemma_distinct_of_prefix(items, k + 1);
        let shorter = items.take(k + 1);
        assert(shorter.drop_last() =~= items.take(k));
        let a = spec_distinct(items.take(k));
        let b = spec_distinct(shorter);
        let c = spec_distinct(items);
        assert(b.take(a.len() as int) =~= a);
        assert(c.take(a.len() as int) =~= c.take(b.len() as int).take(a.len() as int));
    }
}

/// Items added at the end of a list never change what `duplicates` gives for the items
/// before them.
pub proof fn lemma_duplicates_of_prefix(items: Seq<ValueEnum>, k: int)
    requires
        0 <= k <= items.len(),
    ensures
        spec_duplicates(items.take(k)).len() <= spec_duplicates(items).len(),
        spec_duplicates(items).take(spec_duplicates(items.take(k)).len() as int) == spec_duplicates(
            items.take(k),
        ),
    decreases items.len() - k,
{
    if k == items.len() {
        assert(items.take(k) =~= items);
        assert(spec_duplicates(items).take(spec_duplicates(items).len() as int) =~= spec_duplicates(
            items,
        ));
    } else {
        lemma_duplicates_of_prefix(items, k + 1);
        let shorter = items.take(k + 1);
        assert(shorter.drop_last() =~= items.take(k));
        let a = spec_duplicates(items.take(k));
        let b = spec_duplicates(shorter);
        let c = spec_duplicates(items);
        assert(b.take(a.len() as int) =~= a);
        assert(c.take(a.len() as int) =~= c.take(b.len() as int).take(a.len() as int));
    }
}

} // verus!
