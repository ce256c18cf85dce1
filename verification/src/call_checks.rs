use vstd::prelude::*;

use crate::decimal::{decimal_digits, push_decimal};
use crate::errors::LinkingError;
use crate::link_rules::{is_other_link_error, is_type_mismatch};
use crate::node_data::names_of;
use crate::text::{chars_equal_str, chars_of, push_str_chars, string_from_chars};
use crate::types::ValueType;

verus! {

/// The message for a call of `function` with `provided` arguments where it declares
/// `expected` parameters.
pub open spec fn spec_argument_count_message(function: Seq<char>, expected: nat, provided: nat) -> Seq<
    char,
> {
    "Function "@ + function + " expects "@ + decimal_digits(expected) + " arguments, but "@
        + decimal_digits(provided) + " were provided"@
}

/// A call of a user function passes as many arguments as the function declares parameters.
pub fn check_argument_count(function: &str, expected: usize, provided: usize) -> (res: Result<
    (),
    LinkingError,
>)
    ensures
        expected == provided ==> res is Ok,
        expected != provided ==> res is Err && is_other_link_error(
            res->Err_0,
            spec_argument_count_message(function@, expected as nat, provided as nat),
        ),
{
    if expected == provided {
        return Ok(());
    }
    let mut out: Vec<char> = Vec::new();
    push_str_chars(&mut out, "Function ");
    push_str_chars(&mut out, function);
    push_str_chars(&mut out, " expects ");
    push_decimal(&mut out, expected as i128);
    push_str_chars(&mut out, " arguments, but ");
    push_decimal(&mut out, provided as i128);
    push_str_chars(&mut out, " were provided");
    assert(out@ =~= spec_argument_count_message(function@, expected as nat, provided as nat));
    Err(LinkingError::other_error(string_from_chars(out.as_slice())))
}

/// The message for passing the context `context` itself to `function`, which is defined in
/// that context.
pub open spec fn spec_self_context_message(context: Seq<char>, function: Seq<char>) -> Seq<char> {
    "Cannot pass context `"@ + context + "` as argument to function `"@ + function
        + "` defined in the same context"@
}

/// An argument that is the bare name of the context the call stands in, `context`, cannot
/// be passed to `function`, defined in that same context; `argument_path` is the path of a
/// variable argument.
pub fn check_context_argument(argument_path: &Vec<String>, context: &str, function: &str) -> (res:
    Result<(), LinkingError>)
    ensures
        (argument_path@.len() == 1 && names_of(argument_path@)[0] == context@) ==> res is Err
            && is_other_link_error(res->Err_0, spec_self_context_message(context@, function@)),
        !(argument_path@.len() == 1 && names_of(argument_path@)[0] == context@) ==> res is Ok,
{
    if argument_path.len() != 1 {
        return Ok(());
    }
    let first = chars_of(argument_path[0].as_str());
    if !chars_equal_str(first.as_slice(), context) {
        return Ok(());
    }
    let mut out: Vec<char> = Vec::new();
    push_str_chars(&mut out, "Cannot pass context `");
    push_str_chars(&mut out, context);
    push_str_chars(&mut out, "` as argument to function `");
    push_str_chars(&mut out, function);
    push_str_chars(&mut out, "` defined in the same context");
    assert(out@ =~= spec_self_context_message(context@, function@));
    Err(LinkingError::other_error(string_from_chars(out.as_slice())))
}

/// How an argument is named where its type does not fit.
pub open spec fn spec_argument_subject(parameter: Seq<char>, function: Seq<char>) -> Seq<char> {
    "Argument `"@ + parameter + "` of function `"@ + function + "`"@
}

/// The argument for `parameter` of `function` has the type `actual`, which must be the
/// declared type `expected`.
pub fn check_argument_type(parameter: &str, function: &str, actual: ValueType, expected: &ValueType) -> (res:
    Result<ValueType, LinkingError>)
    ensures
        actual == *expected ==> res == Ok::<ValueType, LinkingError>(actual),
        actual != *expected ==> res is Err && is_type_mismatch(
            res->Err_0,
            Some(spec_argument_subject(parameter@, function@)),
            actual,
            seq![*expected],
        ),
{
    let mut out: Vec<char> = Vec::new();
    push_str_chars(&mut out, "Argument `");
    push_str_chars(&mut out, parameter);
    push_str_chars(&mut out, "` of function `");
    push_str_chars(&mut out, function);
    push_str_chars(&mut out, "`");
    assert(out@ =~= spec_argument_subject(parameter@, function@));
    let subject = string_from_chars(out.as_slice());
    LinkingError::expect_single_type(subject.as_str(), actual, expected)
}

} // verus!
