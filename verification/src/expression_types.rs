use vstd::prelude::*;

use crate::errors::is_eval_error;
use crate::errors::{LinkingError, RuntimeError};
use crate::link_rules::{
    flatten_type, is_other_link_error, is_type_mismatch, is_types_differ, merge_collection_types,
    spec_flatten_type, spec_merge_collection_types,
};
use crate::text::{push_str_chars, string_from_chars};
use crate::types::{clone_type, push_type_string, spec_type_string, ValueType};

verus! {

/// The type of `if condition then a else b`, from the types of its parts, the type of the
/// `else` branch being what linking it gave: the condition must be a boolean, and an `else`
/// branch that linked must have the type of the `then` branch; the result is what linking
/// the `else` branch gave.
pub fn link_if_then_else(
    condition: ValueType,
    then_type: ValueType,
    else_type: Result<ValueType, LinkingError>,
) -> (res: Result<ValueType, LinkingError>)
    ensures
        condition != ValueType::BooleanType ==> res is Err && is_type_mismatch(
            res->Err_0,
            Some("if condition"@),
            condition,
            seq![ValueType::BooleanType],
        ),
        condition == ValueType::BooleanType ==> match else_type {
            Ok(t) => if t == then_type {
                res == Ok::<ValueType, LinkingError>(t)
            } else {
                res is Err && is_types_differ(
                    res->Err_0,
                    "`then` and `else` expressions"@,
                    then_type,
                    t,
                )
            },
            Err(e) => res == Err::<ValueType, LinkingError>(e),
        },
{
    let checked = LinkingError::expect_single_type(
        "if condition",
        condition,
        &ValueType::BooleanType,
    );
    if let Err(e) = checked {
        return Err(e);
    }
    match else_type {
        Ok(t) => {
            let same = LinkingError::expect_same_types(
                "`then` and `else` expressions",
                then_type,
                clone_type(&t),
            );
            match same {
                Err(e) => Err(e),
                Ok(_) => Ok(t),
            }
        },
        Err(e) => Err(e),
    }
}

/// The item type of a collection whose elements have the types `types`, merged from the
/// first to the last; `undefined` for no elements, or the message of the first merge that
/// fails.
pub open spec fn spec_collection_item_type(types: Seq<ValueType>) -> Result<ValueType, Seq<char>>
    decreases types.len(),
{
    if types.len() == 0 {
        Ok(ValueType::UndefinedType)
    } else if types.len() == 1 {
        Ok(types[0])
    } else {
        match spec_collection_item_type(types.drop_last()) {
            Ok(acc) => spec_merge_collection_types(acc, types.last()),
            Err(m) => Err(m),
        }
    }
}

/// The item type of a collection whose elements have the types `types`: the types merged
/// in order, `undefined` for an empty collection.
pub fn link_collection_item_type(types: &Vec<ValueType>) -> (res: Result<ValueType, LinkingError>)
    ensures
        match spec_collection_item_type(types@) {
            Ok(t) => res == Ok::<ValueType, LinkingError>(t),
            Err(m) => res is Err && is_other_link_error(res->Err_0, m),
        },
{
    if types.len() == 0 {
        return Ok(ValueType::UndefinedType);
    }
    let mut acc = clone_type(&types[0]);
    let mut i: usize = 1;
    assert(types@.take(1).drop_last() =~= Seq::<ValueType>::empty());
    while i < types.len()
        invariant
            1 <= i <= types@.len(),
            spec_collection_item_type(types@.take(i as int)) == Ok::<ValueType, Seq<char>>(acc),
        decreases types@.len() - i,
    {
        assert(types@.take(i as int + 1).drop_last() =~= types@.take(i as int));
        assert(types@.take(i as int + 1).last() == types@[i as int]);
        match merge_collection_types(acc, clone_type(&types[i])) {
            Ok(t) => {
                acc = t;
            },
            Err(e) => {
                proof {
                    lemma_collection_error_stays(types@, i as int + 1);
                }
                return Err(e);
            },
        }
        i = i + 1;
    }
    assert(types@.take(i as int) =~= types@);
    Ok(acc)
}

/// Once merging the first `i` element types fails, merging all of them fails with the same
/// message.
proof fn lemma_collection_error_stays(types: Seq<ValueType>, i: int)
    requires
        1 <= i <= types.len(),
        spec_collection_item_type(types.take(i)) is Err,
    ensures
        spec_collection_item_type(types) == spec_collection_item_type(types.take(i)),
    decreases types.len() - i,
{
    if i < types.len() {
        assert(types.take(i + 1).drop_last() =~= types.take(i));
        lemma_collection_error_stays(types, i + 1);
    } else {
        assert(types.take(i) =~= types);
    }
}

/// The message for a `for` loop over a value of type `t`, which is neither a list nor a
/// range.
pub open spec fn spec_cannot_iterate_message(t: ValueType) -> Seq<char> {
    "Cannot iterate through non list type `"@ + spec_type_string(t) + "`"@
}

/// The type of the loop variable of `for x in e return ...` where `e` has type `iterated`:
/// the innermost item type of a list, a number for a range; any other type is an error.
pub fn loop_variable_type(iterated: &ValueType) -> (res: Result<ValueType, LinkingError>)
    ensures
        match *iterated {
            ValueType::ListType(item) => res == Ok::<ValueType, LinkingError>(
                spec_flatten_type(*item),
            ),
            ValueType::RangeType => res == Ok::<ValueType, LinkingError>(ValueType::NumberType),
            other => res is Err && is_other_link_error(
                res->Err_0,
                spec_cannot_iterate_message(other),
            ),
        },
{
    match iterated {
        ValueType::ListType(item) => Ok(flatten_type(&**item)),
        ValueType::RangeType => Ok(ValueType::NumberType),
        other => {
            let mut out: Vec<char> = Vec::new();
            push_str_chars(&mut out, "Cannot iterate through non list type `");
            push_type_string(&mut out, other);
            push_str_chars(&mut out, "`");
            assert(out@ =~= spec_cannot_iterate_message(*other));
            Err(LinkingError::other_error(string_from_chars(out.as_slice())))
        },
    }
}

/// How the subject of a filter is named where it is not a list.
pub open spec fn spec_filter_subject(source_text: Seq<char>) -> Seq<char> {
    "Filter subject `"@ + source_text + "`"@
}

/// The type of the item that the condition of a filter `source[...]` looks at, `source`
/// being written `source_text` and having the type `source_type`: the innermost item type of
/// a list; any other type is an error.
pub fn filter_item_type(source_text: &str, source_type: ValueType) -> (res: Result<
    ValueType,
    LinkingError,
>)
    ensures
        match source_type {
            ValueType::ListType(item) => res == Ok::<ValueType, LinkingError>(
                spec_flatten_type(*item),
            ),
            other => res is Err && is_type_mismatch(
                res->Err_0,
                Some(spec_filter_subject(source_text@)),
                other,
                seq![ValueType::ListType(Box::new(ValueType::UndefinedType))],
            ),
        },
{
    match source_type {
        ValueType::ListType(item) => Ok(flatten_type(&*item)),
        other => {
            let mut out: Vec<char> = Vec::new();
            push_str_chars(&mut out, "Filter subject `");
            push_str_chars(&mut out, source_text);
            push_str_chars(&mut out, "`");
            assert(out@ =~= spec_filter_subject(source_text@));
            LinkingError::expect_array_type(Some(string_from_chars(out.as_slice())), other)
        },
    }
}

/// The type of a filter `source[condition]` over a list of type `source_type`, from the
/// type of its condition: a boolean condition or a range keeps the list's type; any other
/// condition selects one item, of the innermost item type.
pub fn filter_result_type(source_type: &ValueType, condition_type: &ValueType) -> (res: ValueType)
    requires
        *source_type is ListType,
    ensures
        (*condition_type is BooleanType || *condition_type is RangeType) ==> res == *source_type,
        !(*condition_type is BooleanType || *condition_type is RangeType) ==> res
            == spec_flatten_type(*source_type->ListType_0),
{
    match condition_type {
        ValueType::BooleanType | ValueType::RangeType => clone_type(source_type),
        _ => match source_type {
            ValueType::ListType(item) => flatten_type(&**item),
            _ => clone_type(source_type),
        },
    }
}

/// The message for filtering `source_text`, whose value has the type `value_type`, which is
/// not a list.
pub open spec fn spec_cannot_filter_message(source_text: Seq<char>, value_type: ValueType) -> Seq<
    char,
> {
    "Cannot filter '"@ + source_text + "' because data type is "@ + spec_type_string(value_type)
        + " and not an array"@
}

/// The error for filtering `source_text`, whose value has the type `value_type` and is no
/// list.
pub fn cannot_filter_error(source_text: &str, value_type: &ValueType) -> (res: RuntimeError)
    ensures
        is_eval_error(res, spec_cannot_filter_message(source_text@, *value_type)),
{
    let mut out: Vec<char> = Vec::new();
    push_str_chars(&mut out, "Cannot filter '");
    push_str_chars(&mut out, source_text);
    push_str_chars(&mut out, "' because data type is ");
    push_type_string(&mut out, value_type);
    push_str_chars(&mut out, " and not an array");
    assert(out@ =~= spec_cannot_filter_message(source_text@, *value_type));
    RuntimeError::eval_error(string_from_chars(out.as_slice()))
}

} // verus!
