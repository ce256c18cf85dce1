use vstd::prelude::*;

use crate::errors::is_eval_error;
use crate::errors::RuntimeError;
use crate::operators::{spec_comparator_str, ComparatorEnum};
use crate::text::{chars_of, push_chars, push_str_chars, string_from_chars};
use crate::types::{spec_special_value_name, StringEnum};
use crate::utils::spec_join;

verus! {

/// How a string value is shown: a string in single quotes, a character as itself, a special
/// value by its name.
pub open spec fn spec_string_value_display(v: StringEnum) -> Seq<char> {
    match v {
        StringEnum::String(s) => "'"@ + s@ + "'"@,
        StringEnum::Char(c) => seq![c],
        StringEnum::SV(sv) => spec_special_value_name(sv),
    }
}

/// Appends how the string value `v` is shown.
fn push_string_value(out: &mut Vec<char>, v: &StringEnum)
    ensures
        final(out)@ == old(out)@ + spec_string_value_display(*v),
{
    match v {
        StringEnum::String(s) => {
            push_str_chars(out, "'");
            let chars = chars_of(s.as_str());
            push_chars(out, chars.as_slice());
            push_str_chars(out, "'");
        },
        StringEnum::Char(c) => {
            out.push(*c);
        },
        StringEnum::SV(sv) => {
            push_str_chars(out, sv.as_str());
        },
    }
}

impl StringEnum {
    /// How the string value is shown.
    pub fn to_display(&self) -> (res: String)
        ensures
            res@ == spec_string_value_display(*self),
    {
        let mut out: Vec<char> = Vec::new();
        push_string_value(&mut out, self);
        assert(out@ =~= spec_string_value_display(*self));
        string_from_chars(out.as_slice())
    }
}

/// The text a string value contributes to a concatenation: a string its characters, a
/// character itself, a special value nothing.
pub open spec fn spec_string_value_text(v: StringEnum) -> Seq<char> {
    match v {
        StringEnum::String(s) => s@,
        StringEnum::Char(c) => seq![c],
        StringEnum::SV(_) => Seq::empty(),
    }
}

/// Two string values added: the raw texts one after the other, with no quotes.
pub fn concat_string_values(left: &StringEnum, right: &StringEnum) -> (res: StringEnum)
    ensures
        res is String,
        res->String_0@ == spec_string_value_text(*left) + spec_string_value_text(*right),
{
    let mut out: Vec<char> = Vec::new();
    match left {
        StringEnum::String(s) => {
            let chars = chars_of(s.as_str());
            push_chars(&mut out, chars.as_slice());
        },
        StringEnum::Char(c) => out.push(*c),
        StringEnum::SV(_) => {},
    }
    let ghost middle = out@;
    match right {
        StringEnum::String(s) => {
            let chars = chars_of(s.as_str());
            push_chars(&mut out, chars.as_slice());
        },
        StringEnum::Char(c) => out.push(*c),
        StringEnum::SV(_) => {},
    }
    assert(out@ =~= spec_string_value_text(*left) + spec_string_value_text(*right));
    StringEnum::String(string_from_chars(out.as_slice()))
}

/// Whether two string values are equal: two strings with the same characters, the same
/// character, or the same special value.
pub open spec fn spec_string_values_equal(a: StringEnum, b: StringEnum) -> bool {
    match (a, b) {
        (StringEnum::String(x), StringEnum::String(y)) => x@ == y@,
        (StringEnum::Char(x), StringEnum::Char(y)) => x == y,
        (StringEnum::SV(x), StringEnum::SV(y)) => x == y,
        _ => false,
    }
}

/// Whether two string values are equal.
fn string_values_equal(a: &StringEnum, b: &StringEnum) -> (res: bool)
    ensures
        res == spec_string_values_equal(*a, *b),
{
    match (a, b) {
        (StringEnum::String(x), StringEnum::String(y)) => {
            let xs = chars_of(x.as_str());
            let ys = chars_of(y.as_str());
            if xs.len() != ys.len() {
                return false;
            }
            let mut i: usize = 0;
            while i < xs.len()
                invariant
                    xs@ == x@,
                    ys@ == y@,
                    *a == StringEnum::String(*x),
                    *b == StringEnum::String(*y),
                    xs@.len() == ys@.len(),
                    i <= xs@.len(),
                    xs@.take(i as int) == ys@.take(i as int),
                decreases xs@.len() - i,
            {
                if xs[i] != ys[i] {
                    assert(xs@[i as int] != ys@[i as int]);
                    assert(xs@ != ys@);
                    return false;
                }
                assert(xs@.take(i + 1) =~= xs@.take(i as int).push(xs@[i as int]));
                assert(ys@.take(i + 1) =~= ys@.take(i as int).push(ys@[i as int]));
                i = i + 1;
            }
            assert(xs@ =~= xs@.take(xs@.len() as int));
            assert(ys@ =~= ys@.take(ys@.len() as int));
            true
        },
        (StringEnum::Char(x), StringEnum::Char(y)) => *x == *y,
        (StringEnum::SV(x), StringEnum::SV(y)) => *x == *y,
        _ => false,
    }
}

/// The message of two values that a comparator cannot compare.
pub open spec fn spec_not_comparable(left: Seq<char>, comparator: ComparatorEnum, right: Seq<char>) -> Seq<
    char,
> {
    "Not possible to compare "@ + left + " "@ + spec_comparator_str(comparator) + " "@ + right
}

/// The error for two values that a comparator cannot compare, each shown by its text.
fn not_comparable(left: &Vec<char>, comparator: ComparatorEnum, right: &Vec<char>) -> (res:
    RuntimeError)
    ensures
        is_eval_error(res, spec_not_comparable(left@, comparator, right@)),
{
    let mut out: Vec<char> = Vec::new();
    push_str_chars(&mut out, "Not possible to compare ");
    push_chars(&mut out, left.as_slice());
    push_str_chars(&mut out, " ");
    push_str_chars(&mut out, comparator.as_str());
    push_str_chars(&mut out, " ");
    push_chars(&mut out, right.as_slice());
    assert(out@ =~= spec_not_comparable(left@, comparator, right@));
    RuntimeError::eval_error(string_from_chars(out.as_slice()))
}

/// Two string values compared: only `=` and `<>` apply.
pub fn compare_string_values(left: &StringEnum, comparator: ComparatorEnum, right: &StringEnum) -> (res:
    Result<bool, RuntimeError>)
    ensures
        comparator is Equals ==> res == Ok::<bool, RuntimeError>(
            spec_string_values_equal(*left, *right),
        ),
        comparator is NotEquals ==> res == Ok::<bool, RuntimeError>(
            !spec_string_values_equal(*left, *right),
        ),
        !(comparator is Equals || comparator is NotEquals) ==> res is Err && is_eval_error(
            res->Err_0,
            spec_not_comparable(
                spec_string_value_display(*left),
                comparator,
                spec_string_value_display(*right),
            ),
        ),
{
    match comparator {
        ComparatorEnum::Equals => Ok(string_values_equal(left, right)),
        ComparatorEnum::NotEquals => Ok(!string_values_equal(left, right)),
        _ => {
            let mut l: Vec<char> = Vec::new();
            push_string_value(&mut l, left);
            let mut r: Vec<char> = Vec::new();
            push_string_value(&mut r, right);
            assert(l@ =~= spec_string_value_display(*left));
            assert(r@ =~= spec_string_value_display(*right));
            Err(not_comparable(&l, comparator, &r))
        },
    }
}

/// How a boolean is shown.
pub open spec fn spec_bool_display(b: bool) -> Seq<char> {
    if b {
        "true"@
    } else {
        "false"@
    }
}

/// Two booleans compared: only `=` and `<>` apply.
pub fn compare_booleans(left: bool, comparator: ComparatorEnum, right: bool) -> (res: Result<
    bool,
    RuntimeError,
>)
    ensures
        comparator is Equals ==> res == Ok::<bool, RuntimeError>(left == right),
        comparator is NotEquals ==> res == Ok::<bool, RuntimeError>(left != right),
        !(comparator is Equals || comparator is NotEquals) ==> res is Err && is_eval_error(
            res->Err_0,
            spec_not_comparable(spec_bool_display(left), comparator, spec_bool_display(right)),
        ),
{
    match comparator {
        ComparatorEnum::Equals => Ok(left == right),
        ComparatorEnum::NotEquals => Ok(left != right),
        _ => {
            let l = if left {
                chars_of("true")
            } else {
                chars_of("false")
            };
            let r = if right {
                chars_of("true")
            } else {
                chars_of("false")
            };
            Err(not_comparable(&l, comparator, &r))
        },
    }
}

/// The texts of the strings and characters among `items`, in order; special values are
/// left out.
pub open spec fn spec_item_texts(items: Seq<StringEnum>) -> Seq<Seq<char>>
    decreases items.len(),
{
    if items.len() == 0 {
        Seq::empty()
    } else {
        let before = spec_item_texts(items.drop_last());
        match items.last() {
            StringEnum::SV(_) => before,
            v => before.push(spec_string_value_text(v)),
        }
    }
}

/// The `join` function on a list of string values: `prefix`, the texts of the strings and
/// characters with `delimiter` between them, then `suffix`.
pub fn join_string_values(items: &Vec<StringEnum>, delimiter: &str, prefix: &str, suffix: &str) -> (res:
    String)
    ensures
        res@ == prefix@ + spec_join(spec_item_texts(items@), delimiter@) + suffix@,
{
    let mut body: Vec<char> = Vec::new();
    let mut count: usize = 0;
    let mut i: usize = 0;
    while i < items.len()
        invariant
            i <= items@.len(),
            count == spec_item_texts(items@.take(i as int)).len(),
            count <= i,
            body@ == spec_join(spec_item_texts(items@.take(i as int)), delimiter@),
        decreases items@.len() - i,
    {
        let ghost before = spec_item_texts(items@.take(i as int));
        proof {
            assert(items@.take(i + 1).drop_last() =~= items@.take(i as int));
            assert(items@.take(i + 1).last() == items@[i as int]);
        }
        match &items[i] {
            StringEnum::SV(_) => {},
            item => {
                if count > 0 {
                    push_str_chars(&mut body, delimiter);
                }
                let mut text: Vec<char> = Vec::new();
                match item {
                    StringEnum::String(s) => {
                        let chars = chars_of(s.as_str());
                        push_chars(&mut text, chars.as_slice());
                    },
                    StringEnum::Char(c) => text.push(*c),
                    StringEnum::SV(_) => {},
                }
                assert(text@ =~= spec_string_value_text(*item));
                push_chars(&mut body, text.as_slice());
                proof {
                    let after = before.push(spec_string_value_text(*item));
                    assert(after.drop_last() =~= before);
                    if count == 0 {
                        assert(body@ =~= after[0]);
                    }
                }
                count = count + 1;
            },
        }
        i = i + 1;
    }
    assert(items@.take(items@.len() as int) =~= items@);
    let mut out: Vec<char> = Vec::new();
    push_str_chars(&mut out, prefix);
    push_chars(&mut out, body.as_slice());
    push_str_chars(&mut out, suffix);
    string_from_chars(out.as_slice())
}

} // verus!
