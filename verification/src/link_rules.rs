use vstd::prelude::*;

use crate::decimal::{decimal_digits, push_decimal};
use crate::errors::{LinkingError, LinkingErrorEnum, RuntimeError, RuntimeErrorEnum};
use crate::text::{chars_of, push_chars};
use crate::types::spec_type_string;
use crate::text::{push_str_chars, string_from_chars};
use crate::types::{clone_type, ValueType};

verus! {

/// `e` is a fresh `TypesNotCompatible` error naming `subject`, the type `met` and the
/// types `expected`.
pub open spec fn is_type_mismatch(
    e: LinkingError,
    subject: Option<Seq<char>>,
    met: ValueType,
    expected: Seq<ValueType>,
) -> bool {
    &&& e.context@.len() == 0
    &&& e.error is TypesNotCompatible
    &&& match e.error->TypesNotCompatible_0 {
        Some(s) => subject == Some(s@),
        None => subject is None,
    }
    &&& e.error->TypesNotCompatible_1 == met
    &&& e.error->TypesNotCompatible_2 is Some
    &&& e.error->TypesNotCompatible_2->Some_0@ == expected
}

/// `e` is a fresh `DifferentTypesDetected` error naming `subject` and the types `left` and
/// `right`.
pub open spec fn is_types_differ(e: LinkingError, subject: Seq<char>, left: ValueType, right: ValueType) -> bool {
    &&& e.context@.len() == 0
    &&& e.error is DifferentTypesDetected
    &&& e.error->DifferentTypesDetected_0 is Some
    &&& e.error->DifferentTypesDetected_0->Some_0@ == subject
    &&& e.error->DifferentTypesDetected_1 == left
    &&& e.error->DifferentTypesDetected_2 == right
}

/// `e` is a fresh `OtherLinkingError` carrying `message`.
pub open spec fn is_other_link_error(e: LinkingError, message: Seq<char>) -> bool {
    &&& e.context@.len() == 0
    &&& e.error is OtherLinkingError
    &&& e.error->OtherLinkingError_0@ == message
}

/// What checking that `t` is `expected` gives: nothing wrong, or the mismatch.
pub open spec fn spec_check(
    res: Result<(), LinkingError>,
    subject: Option<Seq<char>>,
    t: ValueType,
    expected: ValueType,
) -> bool {
    if t == expected {
        res is Ok
    } else {
        res is Err && is_type_mismatch(res->Err_0, subject, t, seq![expected])
    }
}

/// Checks that `t` is `expected`, naming `subject` in the error.
fn check_type(subject: Option<String>, t: ValueType, expected: ValueType) -> (res: Result<
    (),
    LinkingError,
>)
    ensures
        spec_check(
            res,
            match subject {
                Some(s) => Some(s@),
                None => None,
            },
            t,
            expected,
        ),
{
    let list = vec![expected];
    match LinkingError::expect_type(subject, t, list.as_slice()) {
        Ok(_) => Ok(()),
        Err(e) => {
            assert(list@ == seq![expected]);
            Err(e)
        },
    }
}

/// The argument of a string function of one argument must be a string.
pub fn validate_unary_string(arg: ValueType) -> (res: Result<(), LinkingError>)
    ensures
        spec_check(res, None, arg, ValueType::StringType),
{
    check_type(None, arg, ValueType::StringType)
}

/// The left argument of a string function must be a string; the right one may be anything.
pub fn validate_binary_string_any(left: ValueType, right: ValueType) -> (res: Result<
    (),
    LinkingError,
>)
    ensures
        spec_check(res, None, left, ValueType::StringType),
{
    check_type(None, left, ValueType::StringType)
}

/// The first of two arguments must be `first`, then the second must be `second`.
pub open spec fn spec_check_two(
    res: Result<(), LinkingError>,
    left: ValueType,
    first: ValueType,
    right: ValueType,
    second: ValueType,
) -> bool {
    if left != first {
        spec_check(res, None, left, first)
    } else {
        spec_check(res, None, right, second)
    }
}

/// Both arguments of a string function must be strings.
pub fn validate_binary_string_string(left: ValueType, right: ValueType) -> (res: Result<
    (),
    LinkingError,
>)
    ensures
        spec_check_two(res, left, ValueType::StringType, right, ValueType::StringType),
{
    let first = check_type(None, left, ValueType::StringType);
    if first.is_err() {
        return first;
    }
    check_type(None, right, ValueType::StringType)
}

/// A string function taking a string and then a number.
pub fn validate_binary_string_number(left: ValueType, right: ValueType) -> (res: Result<
    (),
    LinkingError,
>)
    ensures
        spec_check_two(res, left, ValueType::StringType, right, ValueType::NumberType),
{
    let first = check_type(None, left, ValueType::StringType);
    if first.is_err() {
        return first;
    }
    check_type(None, right, ValueType::NumberType)
}

/// Whether `types[from..]` are all `expected`.
pub open spec fn spec_all_from(types: Seq<ValueType>, from: int, expected: ValueType) -> bool {
    forall|i: int| from <= i < types.len() ==> #[trigger] types[i] == expected
}

/// `k` is the first position at or after `from` whose type is not `expected`.
pub open spec fn spec_first_other(types: Seq<ValueType>, from: int, expected: ValueType, k: int) -> bool {
    &&& from <= k < types.len()
    &&& types[k] != expected
    &&& forall|j: int| from <= j < k ==> #[trigger] types[j] == expected
}

/// What checking `types[from..]` against `expected` gives, `subject_of` naming the
/// argument at each position: nothing wrong, or the mismatch at the first other type.
pub open spec fn spec_check_rest(
    res: Result<(), LinkingError>,
    types: Seq<ValueType>,
    from: int,
    expected: ValueType,
    subject_of: spec_fn(int) -> Option<Seq<char>>,
) -> bool {
    if spec_all_from(types, from, expected) {
        res is Ok
    } else {
        exists|k: int|
            spec_first_other(types, from, expected, k) && res is Err && is_type_mismatch(
                #[trigger] res->Err_0,
                subject_of(k),
                types[k],
                seq![expected],
            )
    }
}

/// No name for any argument.
pub open spec fn no_subject() -> spec_fn(int) -> Option<Seq<char>> {
    |k: int| None::<Seq<char>>
}

/// The name `argN` of the argument at position `k` (counted from 0, so N is `k + 1`).
pub open spec fn arg_subject() -> spec_fn(int) -> Option<Seq<char>> {
    |k: int| Some("arg"@ + decimal_digits((k + 1) as nat))
}

/// The name `argN` of the argument at position `k`.
fn arg_name(k: usize) -> (res: String)
    ensures
        res@ == "arg"@ + decimal_digits((k + 1) as nat),
{
    let mut out: Vec<char> = Vec::new();
    push_str_chars(&mut out, "arg");
    push_decimal(&mut out, (k as i128) + 1);
    string_from_chars(out.as_slice())
}

/// Checks `types[from..]` against `expected`, naming the arguments `argN` when `named`.
fn check_rest(types: &Vec<ValueType>, from: usize, expected: &ValueType, named: bool) -> (res:
    Result<(), LinkingError>)
    requires
        from <= types@.len(),
    ensures
        spec_check_rest(
            res,
            types@,
            from as int,
            *expected,
            if named {
                arg_subject()
            } else {
                no_subject()
            },
        ),
{
    let ghost subject_of = if named {
        arg_subject()
    } else {
        no_subject()
    };
    let mut i = from;
    while i < types.len()
        invariant
            from <= i <= types@.len(),
            subject_of == (if named {
                arg_subject()
            } else {
                no_subject()
            }),
            forall|j: int| from <= j < i ==> #[trigger] types@[j] == *expected,
        decreases types@.len() - i,
    {
        let subject = if named {
            Some(arg_name(i))
        } else {
            None
        };
        let checked = check_type(subject, clone_type(&types[i]), clone_type(expected));
        if checked.is_err() {
            assert(spec_first_other(types@, from as int, *expected, i as int));
            assert(!spec_all_from(types@, from as int, *expected));
            return checked;
        }
        i = i + 1;
    }
    Ok(())
}

/// `substring` takes a string and one or two numbers.
pub fn validate_multi_substring(args: Vec<ValueType>) -> (res: Result<(), LinkingError>)
    ensures
        !(args@.len() == 2 || args@.len() == 3) ==> res is Err && is_other_link_error(
            res->Err_0,
            "substring expects 2 or 3 arguments"@,
        ),
        (args@.len() == 2 || args@.len() == 3) && args@[0] != ValueType::StringType ==> spec_check(
            res,
            None,
            args@[0],
            ValueType::StringType,
        ),
        (args@.len() == 2 || args@.len() == 3) && args@[0] == ValueType::StringType
            ==> spec_check_rest(res, args@, 1, ValueType::NumberType, arg_subject()),
{
    if !(args.len() == 2 || args.len() == 3) {
        return Err(LinkingError::other_error(String::from_str("substring expects 2 or 3 arguments")));
    }
    let first = check_type(None, clone_type(&args[0]), ValueType::StringType);
    if first.is_err() {
        return first;
    }
    check_rest(&args, 1, &ValueType::NumberType, true)
}

/// `replace` takes three strings and, optionally, a string of flags.
pub fn validate_multi_replace(args: Vec<ValueType>) -> (res: Result<(), LinkingError>)
    ensures
        !(args@.len() == 3 || args@.len() == 4) ==> res is Err && is_other_link_error(
            res->Err_0,
            "replace expects 3 or 4 arguments"@,
        ),
        args@.len() == 3 || args@.len() == 4 ==> spec_check_rest(
            res,
            args@,
            0,
            ValueType::StringType,
            no_subject(),
        ),
{
    if !(args.len() == 3 || args.len() == 4) {
        return Err(LinkingError::other_error(String::from_str("replace expects 3 or 4 arguments")));
    }
    check_rest(&args, 0, &ValueType::StringType, false)
}

/// `fromCharCode` takes numbers only.
pub fn validate_multi_from_char_code(args: Vec<ValueType>) -> (res: Result<(), LinkingError>)
    ensures
        spec_check_rest(res, args@, 0, ValueType::NumberType, no_subject()),
{
    check_rest(&args, 0, &ValueType::NumberType, false)
}

/// A numeric function taking any number of arguments takes numbers only.
pub fn validate_multi_all_args_numbers(args: Vec<ValueType>) -> (res: Result<(), LinkingError>)
    ensures
        spec_check_rest(res, args@, 0, ValueType::NumberType, no_subject()),
{
    check_rest(&args, 0, &ValueType::NumberType, false)
}

/// `padStart` and `padEnd` take a string, a number and a string.
pub fn validate_multi_pad(args: Vec<ValueType>) -> (res: Result<(), LinkingError>)
    ensures
        args@.len() != 3 ==> res is Err && is_other_link_error(
            res->Err_0,
            "padStart/padEnd expects 3 arguments"@,
        ),
        args@.len() == 3 ==> if args@[0] != ValueType::StringType {
            spec_check(res, None, args@[0], ValueType::StringType)
        } else if args@[1] != ValueType::NumberType {
            spec_check(res, None, args@[1], ValueType::NumberType)
        } else {
            spec_check(res, None, args@[2], ValueType::StringType)
        },
{
    if args.len() != 3 {
        return Err(LinkingError::other_error(String::from_str("padStart/padEnd expects 3 arguments")));
    }
    let first = check_type(None, clone_type(&args[0]), ValueType::StringType);
    if first.is_err() {
        return first;
    }
    let second = check_type(None, clone_type(&args[1]), ValueType::NumberType);
    if second.is_err() {
        return second;
    }
    check_type(None, clone_type(&args[2]), ValueType::StringType)
}

/// What checking that `left` is a list whose items `right` can be compared with gives: a
/// list of undefined items takes any item; a list of other items takes only its own item
/// type, and any other type is refused with the subject `function arguments`.
pub open spec fn spec_list_item_check(res: Result<(), LinkingError>, left: ValueType, right: ValueType) -> bool {
    match left {
        ValueType::ListType(item) => if *item == ValueType::UndefinedType || *item == right {
            res is Ok
        } else {
            res is Err && res->Err_0.context@.len() == 0 && res->Err_0.error
                == LinkingErrorEnum::DifferentTypesDetected(
                res->Err_0.error->DifferentTypesDetected_0,
                *item,
                right,
            ) && res->Err_0.error->DifferentTypesDetected_0 is Some
                && res->Err_0.error->DifferentTypesDetected_0->Some_0@ == "function arguments"@
        },
        _ => res is Err && is_type_mismatch(
            res->Err_0,
            Some("function arguments"@),
            left,
            seq![ValueType::ListType(Box::new(ValueType::UndefinedType))],
        ),
    }
}

/// A function searching a list takes the list first and an item of the list's type
/// second; a list of undefined items takes any item.
pub fn list_item_as_second_arg(left: ValueType, right: ValueType) -> (res: Result<
    (),
    LinkingError,
>)
    ensures
        spec_list_item_check(res, left, right),
{
    let item_type = match LinkingError::expect_array_type(
        Some(String::from_str("function arguments")),
        left,
    ) {
        Ok(t) => t,
        Err(e) => {
            return Err(e);
        },
    };
    if !item_type.same_as(&ValueType::UndefinedType) {
        match LinkingError::expect_same_types("function arguments", item_type, right) {
            Ok(_) => {},
            Err(e) => {
                return Err(e);
            },
        }
    }
    Ok(())
}

/// The types `max`, `min` and `sum` reject a type with: a number, a range, a list of
/// numbers.
pub open spec fn spec_number_like_types() -> Seq<ValueType> {
    seq![
        ValueType::NumberType,
        ValueType::RangeType,
        ValueType::ListType(Box::new(ValueType::NumberType)),
    ]
}

/// The types `max`, `min` and `sum` reject a type with.
fn number_like_types() -> (res: Vec<ValueType>)
    ensures
        res@ == spec_number_like_types(),
{
    let res = vec![
        ValueType::NumberType,
        ValueType::RangeType,
        ValueType::ListType(Box::new(ValueType::NumberType)),
    ];
    assert(res@ =~= spec_number_like_types());
    res
}

/// Whether the argument of `count` and friends is a number, a range or any list.
pub open spec fn spec_number_range_or_any_list(t: ValueType) -> bool {
    t is NumberType || t is RangeType || t is ListType
}

/// `count` and friends take a number, a range or a list.
pub fn number_range_or_any_list(value_type: ValueType) -> (res: Result<(), LinkingError>)
    ensures
        spec_number_range_or_any_list(value_type) ==> res is Ok,
        !spec_number_range_or_any_list(value_type) ==> res is Err && is_type_mismatch(
            res->Err_0,
            None,
            value_type,
            spec_number_like_types(),
        ),
{
    match &value_type {
        ValueType::NumberType | ValueType::RangeType | ValueType::ListType(_) => Ok(()),
        _ => Err(LinkingError::types_not_compatible(None, value_type, Some(number_like_types()))),
    }
}

/// Whether the argument of `max`, `min` and `sum` is a number, a range, or a list of
/// numbers, dates, times, dates and times, durations or undefined items.
pub open spec fn spec_number_range_or_number_list(t: ValueType) -> bool {
    match t {
        ValueType::NumberType | ValueType::RangeType => true,
        ValueType::ListType(item) => match *item {
            ValueType::NumberType | ValueType::DateType | ValueType::TimeType
            | ValueType::DateTimeType | ValueType::DurationType | ValueType::UndefinedType => true,
            _ => false,
        },
        _ => false,
    }
}

/// `max`, `min` and `sum` take a number, a range, or a list of values they can order.
pub fn number_range_or_number_list(value_type: ValueType) -> (res: Result<(), LinkingError>)
    ensures
        spec_number_range_or_number_list(value_type) ==> res is Ok,
        !spec_number_range_or_number_list(value_type) ==> res is Err && is_type_mismatch(
            res->Err_0,
            None,
            value_type,
            spec_number_like_types(),
        ),
{
    let accepted = match &value_type {
        ValueType::NumberType | ValueType::RangeType => true,
        ValueType::ListType(item) => match &**item {
            ValueType::NumberType | ValueType::DateType | ValueType::TimeType
            | ValueType::DateTimeType | ValueType::DurationType | ValueType::UndefinedType => true,
            _ => false,
        },
        _ => false,
    };
    if accepted {
        Ok(())
    } else {
        Err(LinkingError::types_not_compatible(None, value_type, Some(number_like_types())))
    }
}

/// A date function taking a string argument.
pub fn expect_string_arg(arg: ValueType) -> (res: Result<(), LinkingError>)
    ensures
        spec_check(res, None, arg, ValueType::StringType),
{
    check_type(None, arg, ValueType::StringType)
}

/// A date function taking a date argument.
pub fn expect_date_arg(arg: ValueType) -> (res: Result<(), LinkingError>)
    ensures
        spec_check(res, None, arg, ValueType::DateType),
{
    check_type(None, arg, ValueType::DateType)
}

/// The list type accepted where any list will do: a list of undefined items.
pub open spec fn spec_any_list() -> ValueType {
    ValueType::ListType(Box::new(ValueType::UndefinedType))
}

/// A list function of one argument takes a list.
pub fn validate_unary_list(arg: ValueType) -> (res: Result<(), LinkingError>)
    ensures
        arg is ListType ==> res is Ok,
        !(arg is ListType) ==> res is Err && is_type_mismatch(
            res->Err_0,
            None,
            arg,
            seq![spec_any_list()],
        ),
{
    match arg {
        ValueType::ListType(_) => Ok(()),
        other => match LinkingError::expect_array_type(None, other) {
            Ok(_) => Ok(()),
            Err(e) => Err(e),
        },
    }
}

/// The innermost item type of nested lists.
pub open spec fn spec_flatten_type(t: ValueType) -> ValueType
    decreases t,
{
    match t {
        ValueType::ListType(inner) => spec_flatten_type(*inner),
        other => other,
    }
}

/// The innermost item type of nested lists.
pub(crate) fn flatten_type(t: &ValueType) -> (res: ValueType)
    ensures
        res == spec_flatten_type(*t),
    decreases *t,
{
    match t {
        ValueType::ListType(inner) => flatten_type(&**inner),
        other => clone_type(other),
    }
}

/// The innermost item type of nested lists of type `t`; any other type is itself.
pub fn flatten_list_type(t: ValueType) -> (res: ValueType)
    ensures
        res == spec_flatten_type(t),
{
    flatten_type(&t)
}

/// The type of `flatten` applied to a value of type `arg`: a list of the innermost item type.
pub fn return_flatten_type(arg: ValueType) -> (res: ValueType)
    ensures
        match arg {
            ValueType::ListType(inner) => res == ValueType::ListType(
                Box::new(spec_flatten_type(*inner)),
            ),
            other => res == other,
        },
{
    match arg {
        ValueType::ListType(inner) => ValueType::ListType(Box::new(flatten_type(&*inner))),
        other => other,
    }
}

/// What checking a list of `wanted` items gives for `arg`: a list whose items (flattened
/// when `flatten`) are `wanted`; a list of undefined items and any other type are refused.
pub open spec fn spec_check_list_of(
    res: Result<(), LinkingError>,
    arg: ValueType,
    wanted: ValueType,
    flatten: bool,
) -> bool {
    let wanted_list = ValueType::ListType(Box::new(wanted));
    match arg {
        ValueType::ListType(inner) => if *inner == ValueType::UndefinedType {
            res is Err && is_type_mismatch(res->Err_0, None, arg, seq![wanted_list])
        } else {
            spec_check(
                res,
                None,
                if flatten {
                    spec_flatten_type(*inner)
                } else {
                    *inner
                },
                wanted,
            )
        },
        _ => spec_check(res, None, arg, wanted_list),
    }
}

/// Checks a list of `wanted` items, as `spec_check_list_of` states.
fn check_list_of(arg: ValueType, wanted: ValueType, flatten: bool) -> (res: Result<
    (),
    LinkingError,
>)
    ensures
        spec_check_list_of(res, arg, wanted, flatten),
{
    let wanted_list = ValueType::ListType(Box::new(clone_type(&wanted)));
    match &arg {
        ValueType::ListType(inner) => {
            if inner.same_as(&ValueType::UndefinedType) {
                let expected = vec![wanted_list];
                assert(expected@ =~= seq![ValueType::ListType(Box::new(wanted))]);
                return Err(LinkingError::types_not_compatible(None, clone_type(&arg), Some(expected)));
            }
            let item = if flatten {
                flatten_type(&**inner)
            } else {
                clone_type(&**inner)
            };
            check_type(None, item, wanted)
        },
        _ => check_type(None, clone_type(&arg), wanted_list),
    }
}

/// Numeric list functions take a list of numbers, nested lists flattened.
pub fn validate_unary_list_numbers(arg: ValueType) -> (res: Result<(), LinkingError>)
    ensures
        spec_check_list_of(res, arg, ValueType::NumberType, true),
{
    check_list_of(arg, ValueType::NumberType, true)
}

/// `all` and `any` take a list of booleans.
pub fn validate_unary_boolean_list(arg: ValueType) -> (res: Result<(), LinkingError>)
    ensures
        spec_check_list_of(res, arg, ValueType::BooleanType, false),
{
    check_list_of(arg, ValueType::BooleanType, false)
}

/// A list function taking a list and a number.
pub fn validate_binary_list_number(left: ValueType, right: ValueType) -> (res: Result<
    (),
    LinkingError,
>)
    ensures
        left is ListType ==> spec_check(res, None, right, ValueType::NumberType),
        !(left is ListType) ==> res is Err && is_type_mismatch(
            res->Err_0,
            None,
            left,
            seq![spec_any_list()],
        ),
{
    match left {
        ValueType::ListType(_) => check_type(None, right, ValueType::NumberType),
        other => match LinkingError::expect_array_type(None, other) {
            Ok(_) => Ok(()),
            Err(e) => Err(e),
        },
    }
}

/// `partition` takes a list and a number.
pub fn validate_binary_partition(left: ValueType, right: ValueType) -> (res: Result<
    (),
    LinkingError,
>)
    ensures
        left is ListType ==> spec_check(res, None, right, ValueType::NumberType),
        !(left is ListType) ==> res is Err && is_type_mismatch(
            res->Err_0,
            None,
            left,
            seq![spec_any_list()],
        ),
{
    match LinkingError::expect_array_type(None, left) {
        Ok(_) => check_type(None, right, ValueType::NumberType),
        Err(e) => Err(e),
    }
}

/// `contains` takes two strings, or a list and an item of the list's type.
pub fn validate_binary_contains_mixed(left: ValueType, right: ValueType) -> (res: Result<
    (),
    LinkingError,
>)
    ensures
        left is StringType ==> spec_check(res, None, right, ValueType::StringType),
        !(left is StringType) ==> spec_list_item_check(res, left, right),
{
    if let ValueType::StringType = left {
        validate_binary_string_string(left, right)
    } else {
        list_item_as_second_arg(left, right)
    }
}

/// `indexOf` takes two strings, or a list and an item of its type.
pub fn validate_binary_index_of_mixed(left: ValueType, right: ValueType) -> (res: Result<
    (),
    LinkingError,
>)
    ensures
        left is StringType ==> spec_check(res, None, right, ValueType::StringType),
        !(left is StringType) ==> spec_list_item_check(res, left, right),
{
    if let ValueType::StringType = left {
        validate_binary_string_string(left, right)
    } else {
        list_item_as_second_arg(left, right)
    }
}

/// `reverse` takes a string or a list.
pub fn validate_unary_reverse_mixed(arg: ValueType) -> (res: Result<(), LinkingError>)
    ensures
        (arg is StringType || arg is ListType) <==> res is Ok,
        res is Err ==> is_type_mismatch(res->Err_0, None, arg, seq![spec_any_list()]),
{
    if let ValueType::StringType = arg {
        validate_unary_string(arg)
    } else {
        validate_unary_list(arg)
    }
}

/// The type of `indexOf`: a number for a string, a list of numbers for a list.
pub fn return_index_of_type(left: ValueType, right: ValueType) -> (res: ValueType)
    ensures
        left is StringType ==> res == ValueType::NumberType,
        !(left is StringType) ==> res == ValueType::ListType(Box::new(ValueType::NumberType)),
{
    if let ValueType::StringType = left {
        ValueType::NumberType
    } else {
        ValueType::ListType(Box::new(ValueType::NumberType))
    }
}

/// The type of `partition` applied to a list: a list of such lists.
pub fn return_partition_type(left: ValueType, right: ValueType) -> (res: ValueType)
    ensures
        left is ListType ==> res == ValueType::ListType(Box::new(left)),
        !(left is ListType) ==> res == left,
{
    match left {
        ValueType::ListType(inner) => ValueType::ListType(Box::new(ValueType::ListType(inner))),
        other => other,
    }
}

/// `sublist` takes a list and one or two numbers.
pub fn validate_multi_sublist(args: Vec<ValueType>) -> (res: Result<(), LinkingError>)
    ensures
        !(args@.len() == 2 || args@.len() == 3) ==> res is Err && is_other_link_error(
            res->Err_0,
            "sublist expects 2 or 3 arguments"@,
        ),
        (args@.len() == 2 || args@.len() == 3) && !(args@[0] is ListType) ==> res is Err
            && is_type_mismatch(res->Err_0, None, args@[0], seq![spec_any_list()]),
        (args@.len() == 2 || args@.len() == 3) && args@[0] is ListType ==> spec_check_rest(
            res,
            args@,
            1,
            ValueType::NumberType,
            no_subject(),
        ),
{
    if !(args.len() == 2 || args.len() == 3) {
        return Err(LinkingError::other_error(String::from_str("sublist expects 2 or 3 arguments")));
    }
    match LinkingError::expect_array_type(None, clone_type(&args[0])) {
        Ok(_) => {},
        Err(e) => {
            return Err(e);
        },
    }
    check_rest(&args, 1, &ValueType::NumberType, false)
}

/// `join` takes a list of strings, then optionally a delimiter, and with four arguments a
/// prefix and a suffix, all strings.
pub fn validate_multi_join(args: Vec<ValueType>) -> (res: Result<(), LinkingError>)
    ensures
        args@.len() == 0 ==> res is Err && is_other_link_error(
            res->Err_0,
            "join expects at least 1 argument"@,
        ),
        args@.len() > 0 && !(args@[0] is ListType) ==> res is Err && is_type_mismatch(
            res->Err_0,
            None,
            args@[0],
            seq![spec_any_list()],
        ),
        args@.len() > 0 && args@[0] is ListType && *args@[0]->ListType_0 != ValueType::StringType
            ==> spec_check(res, None, *args@[0]->ListType_0, ValueType::StringType),
        res is Ok <==> (args@.len() > 0 && args@[0] == ValueType::ListType(
            Box::new(ValueType::StringType),
        ) && (args@.len() >= 2 ==> args@[1] == ValueType::StringType) && (args@.len() == 4 ==> (
        args@[2] == ValueType::StringType && args@[3] == ValueType::StringType))),
{
    if args.len() == 0 {
        return Err(LinkingError::other_error(String::from_str("join expects at least 1 argument")));
    }
    let inner = match LinkingError::expect_array_type(None, clone_type(&args[0])) {
        Ok(t) => t,
        Err(e) => {
            return Err(e);
        },
    };
    let first = check_type(None, inner, ValueType::StringType);
    if first.is_err() {
        return first;
    }
    if args.len() >= 2 {
        let second = check_type(None, clone_type(&args[1]), ValueType::StringType);
        if second.is_err() {
            return second;
        }
    }
    if args.len() == 4 {
        let third = check_type(None, clone_type(&args[2]), ValueType::StringType);
        if third.is_err() {
            return third;
        }
        let fourth = check_type(None, clone_type(&args[3]), ValueType::StringType);
        if fourth.is_err() {
            return fourth;
        }
    }
    Ok(())
}

/// What checking that every one of `types` is a list of the same item type as the first
/// gives (for `concatenate` and `union`).
pub open spec fn spec_lists_agree(types: Seq<ValueType>) -> bool {
    &&& forall|i: int| 0 <= i < types.len() ==> #[trigger] types[i] is ListType
    &&& forall|i: int|
        0 <= i < types.len() ==> *(#[trigger] types[i])->ListType_0 == *types[0]->ListType_0
}

/// `e` is the error that checking `types` as lists of one item type meets first, at
/// position `i`: every earlier type is a list of the first list's item type, and the type at
/// `i` is no list, or a list of another item type.
pub open spec fn spec_list_problem_at(types: Seq<ValueType>, i: int, subject: Seq<char>, e: LinkingError) -> bool {
    &&& 0 <= i < types.len()
    &&& forall|j: int|
        0 <= j < i ==> #[trigger] types[j] is ListType && *types[j]->ListType_0
            == *types[0]->ListType_0
    &&& if !(types[i] is ListType) {
        is_type_mismatch(e, None, types[i], seq![spec_any_list()])
    } else {
        &&& *types[i]->ListType_0 != *types[0]->ListType_0
        &&& is_types_differ(e, subject, *types[0]->ListType_0, *types[i]->ListType_0)
    }
}

/// Checks that `types` are lists with one item type, naming `subject` when item types differ.
fn check_same_lists(types: &Vec<ValueType>, subject: &str) -> (res: Result<(), LinkingError>)
    requires
        types@.len() > 0,
    ensures
        res is Ok <==> spec_lists_agree(types@),
        res is Err ==> exists|i: int|
            #![trigger types@[i]]
            spec_list_problem_at(types@, i, subject@, res->Err_0),
{
    let base = match LinkingError::expect_array_type(None, clone_type(&types[0])) {
        Ok(t) => t,
        Err(e) => {
            assert(!(types@[0] is ListType));
            assert(spec_list_problem_at(types@, 0, subject@, e));
            return Err(e);
        },
    };
    let mut i: usize = 1;
    while i < types.len()
        invariant
            1 <= i <= types@.len(),
            types@[0] is ListType,
            base == *types@[0]->ListType_0,
            forall|j: int| 0 <= j < i ==> #[trigger] types@[j] is ListType,
            forall|j: int| 0 <= j < i ==> *(#[trigger] types@[j])->ListType_0 == base,
        decreases types@.len() - i,
    {
        let inner = match LinkingError::expect_array_type(None, clone_type(&types[i])) {
            Ok(t) => t,
            Err(e) => {
                assert(!(types@[i as int] is ListType));
                assert(spec_list_problem_at(types@, i as int, subject@, e));
                return Err(e);
            },
        };
        match LinkingError::expect_same_types(subject, clone_type(&base), inner) {
            Ok(_) => {},
            Err(e) => {
                assert(*types@[i as int]->ListType_0 != base);
                assert(spec_list_problem_at(types@, i as int, subject@, e));
                return Err(e);
            },
        }
        i = i + 1;
    }
    Ok(())
}

/// `concatenate` takes one or more lists with one item type.
pub fn validate_multi_concatenate(args: Vec<ValueType>) -> (res: Result<(), LinkingError>)
    ensures
        args@.len() == 0 ==> res is Err && is_other_link_error(
            res->Err_0,
            "concatenate expects at least 1 argument"@,
        ),
        args@.len() > 0 ==> (res is Ok <==> spec_lists_agree(args@)),
        args@.len() > 0 && res is Err ==> exists|i: int|
            spec_list_problem_at(args@, i, "concatenate"@, res->Err_0),
{
    if args.len() == 0 {
        return Err(
            LinkingError::other_error(String::from_str("concatenate expects at least 1 argument")),
        );
    }
    check_same_lists(&args, "concatenate")
}

/// `union` takes one or more lists with one item type.
pub fn validate_multi_union(args: Vec<ValueType>) -> (res: Result<(), LinkingError>)
    ensures
        args@.len() == 0 ==> res is Err && is_other_link_error(
            res->Err_0,
            "union expects at least 1 argument"@,
        ),
        args@.len() > 0 ==> (res is Ok <==> spec_lists_agree(args@)),
        args@.len() > 0 && res is Err ==> exists|i: int|
            spec_list_problem_at(args@, i, "union"@, res->Err_0),
{
    if args.len() == 0 {
        return Err(LinkingError::other_error(String::from_str("union expects at least 1 argument")));
    }
    check_same_lists(&args, "union")
}

/// `e` is the error that checking the items appended to the list `args[0]` meets first, at
/// position `i`: the earlier items have the list's item type, the one at `i` has another.
pub open spec fn spec_append_problem_at(args: Seq<ValueType>, i: int, e: LinkingError) -> bool {
    &&& 1 <= i < args.len()
    &&& args[i] != *args[0]->ListType_0
    &&& forall|j: int| 1 <= j < i ==> #[trigger] args[j] == *args[0]->ListType_0
    &&& is_types_differ(e, "append"@, *args[0]->ListType_0, args[i])
}

/// `append` takes a list and then items of its item type.
pub fn validate_multi_append(args: Vec<ValueType>) -> (res: Result<(), LinkingError>)
    ensures
        args@.len() == 0 ==> res is Err && is_other_link_error(
            res->Err_0,
            "append expects at least 1 argument"@,
        ),
        args@.len() > 0 ==> (res is Ok <==> (args@[0] is ListType && forall|i: int|
            1 <= i < args@.len() ==> #[trigger] args@[i] == *args@[0]->ListType_0)),
        args@.len() > 0 && !(args@[0] is ListType) ==> res is Err && is_type_mismatch(
            res->Err_0,
            None,
            args@[0],
            seq![spec_any_list()],
        ),
        args@.len() > 0 && args@[0] is ListType && res is Err ==> exists|i: int|
            #![trigger args@[i]]
            spec_append_problem_at(args@, i, res->Err_0),
{
    if args.len() == 0 {
        return Err(LinkingError::other_error(String::from_str("append expects at least 1 argument")));
    }
    let item = match LinkingError::expect_array_type(None, clone_type(&args[0])) {
        Ok(t) => t,
        Err(e) => {
            return Err(e);
        },
    };
    let mut i: usize = 1;
    while i < args.len()
        invariant
            1 <= i <= args@.len(),
            args@[0] is ListType,
            item == *args@[0]->ListType_0,
            forall|j: int| 1 <= j < i ==> #[trigger] args@[j] == item,
        decreases args@.len() - i,
    {
        match LinkingError::expect_same_types("append", clone_type(&item), clone_type(&args[i])) {
            Ok(_) => {},
            Err(e) => {
                assert(args@[i as int] != item);
                assert(spec_append_problem_at(args@, i as int, e));
                return Err(e);
            },
        }
        i = i + 1;
    }
    Ok(())
}

/// `insertBefore` takes a list, a number and an item of the list's type.
pub fn validate_multi_insert_before(args: Vec<ValueType>) -> (res: Result<(), LinkingError>)
    ensures
        args@.len() != 3 ==> res is Err && is_other_link_error(
            res->Err_0,
            "insertBefore expects 3 arguments"@,
        ),
        args@.len() == 3 ==> (res is Ok <==> (args@[0] is ListType && args@[1]
            == ValueType::NumberType && args@[2] == *args@[0]->ListType_0)),
        args@.len() == 3 && !(args@[0] is ListType) ==> res is Err && is_type_mismatch(
            res->Err_0,
            None,
            args@[0],
            seq![spec_any_list()],
        ),
        args@.len() == 3 && args@[0] is ListType && args@[1] != ValueType::NumberType ==> res is Err
            && is_type_mismatch(res->Err_0, None, args@[1], seq![ValueType::NumberType]),
        args@.len() == 3 && args@[0] is ListType && args@[1] == ValueType::NumberType && args@[2]
            != *args@[0]->ListType_0 ==> res is Err && is_types_differ(
            res->Err_0,
            "insertBefore"@,
            *args@[0]->ListType_0,
            args@[2],
        ),
{
    if args.len() != 3 {
        return Err(LinkingError::other_error(String::from_str("insertBefore expects 3 arguments")));
    }
    let inner = match LinkingError::expect_array_type(None, clone_type(&args[0])) {
        Ok(t) => t,
        Err(e) => {
            return Err(e);
        },
    };
    let second = check_type(None, clone_type(&args[1]), ValueType::NumberType);
    if second.is_err() {
        return second;
    }
    match LinkingError::expect_same_types("insertBefore", inner, clone_type(&args[2])) {
        Ok(_) => Ok(()),
        Err(e) => Err(e),
    }
}

/// The message for two item types a collection cannot hold together.
pub open spec fn spec_not_homogeneous(left: ValueType, right: ValueType) -> Seq<char> {
    "Only homogeneous arrays are supported. Found`"@ + spec_type_string(left) + "` and `"@
        + spec_type_string(right) + "`"@
}

/// The item type of a collection holding items of types `existing` and `new_type`: an
/// undefined type gives way to the other, equal types stay, lists merge their item types,
/// and other types cannot be mixed.
pub open spec fn spec_merge_collection_types(existing: ValueType, new_type: ValueType) -> Result<
    ValueType,
    Seq<char>,
>
    decreases existing,
{
    if existing == ValueType::UndefinedType {
        Ok(new_type)
    } else if new_type == ValueType::UndefinedType {
        Ok(existing)
    } else if existing == new_type {
        Ok(existing)
    } else {
        match (existing, new_type) {
            (ValueType::ListType(base), ValueType::ListType(extra)) => match spec_merge_collection_types(
                *base,
                *extra,
            ) {
                Ok(t) => Ok(ValueType::ListType(Box::new(t))),
                Err(m) => Err(m),
            },
            _ => Err(spec_not_homogeneous(existing, new_type)),
        }
    }
}

/// The item type of a collection holding items of types `existing` and `new_type`, or an
/// error when they cannot be mixed.
pub fn merge_collection_types(existing: ValueType, new_type: ValueType) -> (res: Result<
    ValueType,
    LinkingError,
>)
    ensures
        match spec_merge_collection_types(existing, new_type) {
            Ok(t) => res == Ok::<ValueType, LinkingError>(t),
            Err(m) => res is Err && is_other_link_error(res->Err_0, m),
        },
    decreases existing,
{
    if existing.same_as(&ValueType::UndefinedType) {
        return Ok(new_type);
    }
    if new_type.same_as(&ValueType::UndefinedType) {
        return Ok(existing);
    }
    if existing.same_as(&new_type) {
        return Ok(existing);
    }
    match (existing, new_type) {
        (ValueType::ListType(base), ValueType::ListType(extra)) => {
            match merge_collection_types(*base, *extra) {
                Ok(t) => Ok(ValueType::ListType(Box::new(t))),
                Err(e) => Err(e),
            }
        },
        (left, right) => {
            let mut out: Vec<char> = Vec::new();
            push_str_chars(&mut out, "Only homogeneous arrays are supported. Found`");
            let l = left.to_type_string();
            let l_chars = chars_of(l.as_str());
            push_chars(&mut out, l_chars.as_slice());
            push_str_chars(&mut out, "` and `");
            let r = right.to_type_string();
            let r_chars = chars_of(r.as_str());
            push_chars(&mut out, r_chars.as_slice());
            push_str_chars(&mut out, "`");
            assert(out@ =~= spec_not_homogeneous(left, right));
            Err(LinkingError::other_error(string_from_chars(out.as_slice())))
        },
    }
}

/// Merges the item type `candidate` of a list into `target`: an undefined candidate changes
/// nothing, an undefined target takes the candidate, equal types agree, and a different
/// type is not supported.
pub fn merge_item_type(target: &mut ValueType, candidate: ValueType) -> (res: Result<
    (),
    RuntimeError,
>)
    ensures
        candidate == ValueType::UndefinedType ==> res is Ok && *final(target) == *old(target),
        candidate != ValueType::UndefinedType && *old(target) == ValueType::UndefinedType ==> res is Ok
            && *final(target) == candidate,
        candidate != ValueType::UndefinedType && *old(target) != ValueType::UndefinedType
            && *old(target) == candidate ==> res is Ok && *final(target) == *old(target),
        candidate != ValueType::UndefinedType && *old(target) != ValueType::UndefinedType
            && *old(target) != candidate ==> res is Err && *final(target) == *old(target)
            && res->Err_0.error == RuntimeErrorEnum::TypeNotSupported(candidate)
            && res->Err_0.context@.len() == 0,
{
    if candidate.same_as(&ValueType::UndefinedType) {
        return Ok(());
    }
    if target.same_as(&ValueType::UndefinedType) {
        *target = candidate;
        return Ok(());
    }
    if target.same_as(&candidate) {
        Ok(())
    } else {
        Err(RuntimeError::type_not_supported(candidate))
    }
}

} // verus!
