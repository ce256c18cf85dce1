use vstd::prelude::*;

use crate::text::{chars_equal_str, chars_of, string_from_chars};
use crate::types::{ComplexTypeRef, ValueType};

verus! {

/// `s` with its trailing `[]` pairs taken off, and how many there were.
pub open spec fn spec_strip_list_suffixes(s: Seq<char>) -> (Seq<char>, nat)
    decreases s.len(),
{
    if s.len() >= 2 && s[s.len() - 2] == '[' && s[s.len() - 1] == ']' {
        let (base, n) = spec_strip_list_suffixes(s.take(s.len() - 2));
        (base, n + 1)
    } else {
        (s, 0)
    }
}

/// The built-in type written `name` in a declaration, if it is one.
pub open spec fn spec_declared_primitive(name: Seq<char>) -> Option<ValueType> {
    if name == "number"@ {
        Some(ValueType::NumberType)
    } else if name == "string"@ {
        Some(ValueType::StringType)
    } else if name == "boolean"@ {
        Some(ValueType::BooleanType)
    } else if name == "date"@ {
        Some(ValueType::DateType)
    } else if name == "time"@ {
        Some(ValueType::TimeType)
    } else if name == "datetime"@ {
        Some(ValueType::DateTimeType)
    } else if name == "duration"@ {
        Some(ValueType::DurationType)
    } else {
        None
    }
}

/// `t` is `layers` lists around the type named `base`: a built-in type, or an alias of a
/// user type.
pub open spec fn spec_type_ref_is(t: ComplexTypeRef, layers: nat, base: Seq<char>) -> bool
    decreases layers,
{
    if layers == 0 {
        match spec_declared_primitive(base) {
            Some(vt) => t == ComplexTypeRef::Primitive(vt),
            None => t is Alias && t->Alias_0@ == base,
        }
    } else {
        t is List && spec_type_ref_is(*t->List_0, (layers - 1) as nat, base)
    }
}

/// The built-in type or alias written `name`.
fn named_type_ref(name: &Vec<char>) -> (res: ComplexTypeRef)
    ensures
        spec_type_ref_is(res, 0, name@),
{
    proof {
        reveal_strlit("number");
        reveal_strlit("string");
        reveal_strlit("boolean");
        reveal_strlit("date");
        reveal_strlit("time");
        reveal_strlit("datetime");
        reveal_strlit("duration");
    }
    let n = name.as_slice();
    if chars_equal_str(n, "number") {
        ComplexTypeRef::Primitive(ValueType::NumberType)
    } else if chars_equal_str(n, "string") {
        ComplexTypeRef::Primitive(ValueType::StringType)
    } else if chars_equal_str(n, "boolean") {
        ComplexTypeRef::Primitive(ValueType::BooleanType)
    } else if chars_equal_str(n, "date") {
        ComplexTypeRef::Primitive(ValueType::DateType)
    } else if chars_equal_str(n, "time") {
        ComplexTypeRef::Primitive(ValueType::TimeType)
    } else if chars_equal_str(n, "datetime") {
        ComplexTypeRef::Primitive(ValueType::DateTimeType)
    } else if chars_equal_str(n, "duration") {
        ComplexTypeRef::Primitive(ValueType::DurationType)
    } else {
        ComplexTypeRef::Alias(string_from_chars(n))
    }
}

/// The type declared as `name`: each trailing `[]` makes a list of what precedes it, and
/// the rest names a built-in type (`number`, `string`, `boolean`, `date`, `time`,
/// `datetime`, `duration`) or, otherwise, an alias of a user type.
pub fn parse_type(name: &str) -> (res: ComplexTypeRef)
    ensures
        spec_type_ref_is(
            res,
            spec_strip_list_suffixes(name@).1,
            spec_strip_list_suffixes(name@).0,
        ),
{
    let chars = chars_of(name);
    let mut end = chars.len();
    let mut layers: usize = 0;
    assert(chars@.take(chars@.len() as int) =~= chars@);
    while end >= 2 && chars[end - 2] == '[' && chars[end - 1] == ']'
        invariant
            end <= chars@.len(),
            end + 2 * layers == chars@.len(),
            spec_strip_list_suffixes(chars@).0 == spec_strip_list_suffixes(
                chars@.take(end as int),
            ).0,
            spec_strip_list_suffixes(chars@).1 == spec_strip_list_suffixes(
                chars@.take(end as int),
            ).1 + layers,
        decreases end,
    {
        let ghost s = chars@.take(end as int);
        assert(s.take(s.len() - 2) =~= chars@.take(end - 2));
        assert(s[s.len() - 2] == '[' && s[s.len() - 1] == ']');
        end = end - 2;
        layers = layers + 1;
    }
    let ghost s = chars@.take(end as int);
    assert(spec_strip_list_suffixes(s).0 == s && spec_strip_list_suffixes(s).1 == 0);
    let mut base: Vec<char> = Vec::new();
    let mut i: usize = 0;
    while i < end
        invariant
            end <= chars@.len(),
            i <= end,
            base@ == chars@.take(i as int),
        decreases end - i,
    {
        base.push(chars[i]);
        i = i + 1;
        assert(base@ =~= chars@.take(i as int));
    }
    let mut res = named_type_ref(&base);
    let mut k: usize = 0;
    while k < layers
        invariant
            k <= layers,
            spec_type_ref_is(res, k as nat, base@),
        decreases layers - k,
    {
        res = ComplexTypeRef::List(Box::new(res));
        k = k + 1;
    }
    res
}

} // verus!
