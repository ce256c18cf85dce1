use vstd::prelude::*;

use crate::errors::ParseErrorEnum;
use crate::text::{chars_equal_str, chars_of, push_chars, push_str_chars, string_from_chars};
use crate::utils::{slice_chars, starts_with_chars};

verus! {

/// A value that is not there: missing although mandatory, not applicable, or not found.
#[derive(Debug, Clone, Copy, PartialEq, Eq, Structural)]
pub enum SpecialValueEnum {
    Missing,
    NotApplicable,
    NotFound,
}

impl SpecialValueEnum {
    /// The name under which the special value is shown.
    pub fn as_str(&self) -> (res: &'static str)
        ensures
            res@ == spec_special_value_name(*self),
    {
        match self {
            SpecialValueEnum::Missing => "Missing",
            SpecialValueEnum::NotApplicable => "NotApplicable",
            SpecialValueEnum::NotFound => "NotFound",
        }
    }
}

/// The name under which a special value is shown.
pub open spec fn spec_special_value_name(v: SpecialValueEnum) -> Seq<char> {
    match v {
        SpecialValueEnum::Missing => "Missing"@,
        SpecialValueEnum::NotApplicable => "NotApplicable"@,
        SpecialValueEnum::NotFound => "NotFound"@,
    }
}

/// A value, or the special value standing where it is not there.
#[derive(Clone, Debug, Eq, PartialEq)]
pub enum ValueOrSv<OkValue, SpecialValue> {
    Value(OkValue),
    Sv(SpecialValue),
}

/// A string value: a string, a single character, or a special value.
#[derive(Debug, PartialEq, Clone)]
pub enum StringEnum {
    String(String),
    Char(char),
    SV(SpecialValueEnum),
}

/// The type of a value.
#[derive(Debug, PartialEq)]
pub enum ValueType {
    NumberType,
    StringType,
    BooleanType,
    DateType,
    TimeType,
    DateTimeType,
    RangeType,
    /// A list whose items have the given type.
    ListType(Box<ValueType>),
    DurationType,
    UndefinedType,
}

impl ValueType {
    /// The item type of a list type.
    pub fn get_list_type(&self) -> (res: Option<ValueType>)
        ensures
            res == (match *self {
                ValueType::ListType(item) => Some(*item),
                _ => None,
            }),
    {
        match self {
            ValueType::ListType(item) => Some(clone_type(item)),
            _ => None,
        }
    }

    /// Whether two types are the same.
    pub fn same_as(&self, other: &ValueType) -> (res: bool)
        ensures
            res == (*self == *other),
        decreases *self,
    {
        match (self, other) {
            (ValueType::NumberType, ValueType::NumberType) => true,
            (ValueType::StringType, ValueType::StringType) => true,
            (ValueType::BooleanType, ValueType::BooleanType) => true,
            (ValueType::DateType, ValueType::DateType) => true,
            (ValueType::TimeType, ValueType::TimeType) => true,
            (ValueType::DateTimeType, ValueType::DateTimeType) => true,
            (ValueType::RangeType, ValueType::RangeType) => true,
            (ValueType::ListType(a), ValueType::ListType(b)) => {
                let r = (&**a).same_as(&**b);
                proof {
                    if r {
                        assert(**a == **b);
                    }
                }
                r
            },
            (ValueType::DurationType, ValueType::DurationType) => true,
            (ValueType::UndefinedType, ValueType::UndefinedType) => true,
            _ => false,
        }
    }
}

impl Clone for ValueType {
    fn clone(&self) -> (res: Self)
        ensures
            res == *self,
    {
        clone_type(self)
    }
}

/// A copy of a type.
pub fn clone_type(t: &ValueType) -> (res: ValueType)
    ensures
        res == *t,
    decreases *t,
{
    match t {
        ValueType::NumberType => ValueType::NumberType,
        ValueType::StringType => ValueType::StringType,
        ValueType::BooleanType => ValueType::BooleanType,
        ValueType::DateType => ValueType::DateType,
        ValueType::TimeType => ValueType::TimeType,
        ValueType::DateTimeType => ValueType::DateTimeType,
        ValueType::RangeType => ValueType::RangeType,
        ValueType::ListType(item) => ValueType::ListType(Box::new(clone_type(&**item))),
        ValueType::DurationType => ValueType::DurationType,
        ValueType::UndefinedType => ValueType::UndefinedType,
    }
}

} // verus!

verus! {

/// How a type is written: `number`, `string`, `boolean`, `date`, `time`, `date and time`,
/// `range`, `list of <item type>`, `duration`, `undefined`.
pub open spec fn spec_type_string(t: ValueType) -> Seq<char>
    decreases t,
{
    match t {
        ValueType::NumberType => "number"@,
        ValueType::StringType => "string"@,
        ValueType::BooleanType => "boolean"@,
        ValueType::DateType => "date"@,
        ValueType::TimeType => "time"@,
        ValueType::DateTimeType => "date and time"@,
        ValueType::RangeType => "range"@,
        ValueType::ListType(item) => "list of "@ + spec_type_string(*item),
        ValueType::DurationType => "duration"@,
        ValueType::UndefinedType => "undefined"@,
    }
}

/// `s` with every occurrence of `pattern` taken out, scanning from the left as
/// `str::replace` does with an empty replacement.
pub open spec fn spec_remove_all(s: Seq<char>, pattern: Seq<char>) -> Seq<char>
    decreases s.len(),
{
    if s.len() == 0 {
        s
    } else if pattern.len() > 0 && pattern.len() <= s.len() && s.take(pattern.len() as int)
        == pattern {
        spec_remove_all(s.skip(pattern.len() as int), pattern)
    } else {
        seq![s[0]] + spec_remove_all(s.drop_first(), pattern)
    }
}

pub proof fn lemma_remove_all_len(s: Seq<char>, pattern: Seq<char>)
    ensures
        spec_remove_all(s, pattern).len() <= s.len(),
        pattern.len() > 0 && pattern.len() <= s.len() && s.take(pattern.len() as int) == pattern
            ==> spec_remove_all(s, pattern).len() < s.len(),
    decreases s.len(),
{
    if s.len() > 0 {
        if pattern.len() > 0 && pattern.len() <= s.len() && s.take(pattern.len() as int)
            == pattern {
            lemma_remove_all_len(s.skip(pattern.len() as int), pattern);
        } else {
            lemma_remove_all_len(s.drop_first(), pattern);
        }
    }
}

/// The type written `s`: a `list of ` prefix makes a list of the type written by what is
/// left once every `list of ` is taken out; an unknown name is an `UnknownType` error.
pub open spec fn spec_type_from(s: Seq<char>) -> Result<ValueType, Seq<char>>
    decreases s.len(),
{
    let p = "list of "@;
    if p.len() <= s.len() && s.take(p.len() as int) == p {
        proof {
            reveal_strlit("list of ");
            lemma_remove_all_len(s, p);
        }
        match spec_type_from(spec_remove_all(s, p)) {
            Ok(t) => Ok(ValueType::ListType(Box::new(t))),
            Err(e) => Err(e),
        }
    } else if s == "number"@ {
        Ok(ValueType::NumberType)
    } else if s == "string"@ {
        Ok(ValueType::StringType)
    } else if s == "boolean"@ {
        Ok(ValueType::BooleanType)
    } else if s == "date"@ {
        Ok(ValueType::DateType)
    } else if s == "time"@ {
        Ok(ValueType::TimeType)
    } else if s == "date and time"@ {
        Ok(ValueType::DateTimeType)
    } else if s == "duration"@ {
        Ok(ValueType::DurationType)
    } else {
        Err(s)
    }
}

/// Appends how `t` is written.
pub(crate) fn push_type_string(out: &mut Vec<char>, t: &ValueType)
    ensures
        final(out)@ == old(out)@ + spec_type_string(*t),
    decreases *t,
{
    match t {
        ValueType::NumberType => push_str_chars(out, "number"),
        ValueType::StringType => push_str_chars(out, "string"),
        ValueType::BooleanType => push_str_chars(out, "boolean"),
        ValueType::DateType => push_str_chars(out, "date"),
        ValueType::TimeType => push_str_chars(out, "time"),
        ValueType::DateTimeType => push_str_chars(out, "date and time"),
        ValueType::RangeType => push_str_chars(out, "range"),
        ValueType::ListType(item) => {
            push_str_chars(out, "list of ");
            push_type_string(out, &**item);
            assert(out@ =~= old(out)@ + spec_type_string(*t));
        },
        ValueType::DurationType => push_str_chars(out, "duration"),
        ValueType::UndefinedType => push_str_chars(out, "undefined"),
    }
}

/// `s` with every occurrence of `pattern` taken out.
fn remove_all(s: &Vec<char>, pattern: &Vec<char>) -> (res: Vec<char>)
    ensures
        res@ == spec_remove_all(s@, pattern@),
{
    let mut out: Vec<char> = Vec::new();
    let mut i: usize = 0;
    let n = s.len();
    let m = pattern.len();
    assert(s@.skip(0) =~= s@);
    assert(out@ + spec_remove_all(s@, pattern@) =~= spec_remove_all(s@, pattern@));
    while i < n
        invariant
            n == s@.len(),
            m == pattern@.len(),
            i <= n,
            out@ + spec_remove_all(s@.skip(i as int), pattern@) == spec_remove_all(s@, pattern@),
        decreases n - i,
    {
        let ghost rest = s@.skip(i as int);
        let rest_exec = slice_chars(s, i, n);
        if m > 0 && m <= n - i && starts_with_chars(&rest_exec, pattern) {
            assert(rest.skip(m as int) =~= s@.skip(i + m));
            i = i + m;
        } else {
            assert(rest.drop_first() =~= s@.skip(i + 1));
            assert(rest[0] == s@[i as int]);
            let ghost before = out@;
            out.push(s[i]);
            assert(out@ + spec_remove_all(s@.skip(i + 1), pattern@) =~= before + (seq![s@[i as int]]
                + spec_remove_all(s@.skip(i + 1), pattern@)));
            i = i + 1;
        }
    }
    assert(s@.skip(n as int) =~= Seq::<char>::empty());
    assert(out@ + spec_remove_all(s@.skip(n as int), pattern@) =~= out@);
    out
}

impl ValueType {
    /// How the type is written.
    pub fn to_type_string(&self) -> (res: String)
        ensures
            res@ == spec_type_string(*self),
    {
        let mut out: Vec<char> = Vec::new();
        push_type_string(&mut out, self);
        assert(out@ =~= spec_type_string(*self));
        string_from_chars(out.as_slice())
    }

    /// The type written `value`, or an `UnknownType` error naming the unknown text.
    pub fn try_from(value: &str) -> (res: Result<ValueType, ParseErrorEnum>)
        ensures
            match spec_type_from(value@) {
                Ok(t) => res == Ok::<ValueType, ParseErrorEnum>(t),
                Err(m) => res is Err && res->Err_0 is UnknownType && res->Err_0->UnknownType_0@
                    == m,
            },
    {
        let chars = chars_of(value);
        type_from_chars(&chars)
    }
}

/// The type written by `chars`.
fn type_from_chars(chars: &Vec<char>) -> (res: Result<ValueType, ParseErrorEnum>)
    ensures
        match spec_type_from(chars@) {
            Ok(t) => res == Ok::<ValueType, ParseErrorEnum>(t),
            Err(m) => res is Err && res->Err_0 is UnknownType && res->Err_0->UnknownType_0@ == m,
        },
    decreases chars@.len(),
{
    let prefix = chars_of("list of ");
    let v = chars.as_slice();
    if starts_with_chars(chars, &prefix) {
        let inner = remove_all(chars, &prefix);
        proof {
            reveal_strlit("list of ");
            lemma_remove_all_len(chars@, prefix@);
        }
        match type_from_chars(&inner) {
            Ok(t) => Ok(ValueType::ListType(Box::new(t))),
            Err(e) => Err(e),
        }
    } else if chars_equal_str(v, "number") {
        Ok(ValueType::NumberType)
    } else if chars_equal_str(v, "string") {
        Ok(ValueType::StringType)
    } else if chars_equal_str(v, "boolean") {
        Ok(ValueType::BooleanType)
    } else if chars_equal_str(v, "date") {
        Ok(ValueType::DateType)
    } else if chars_equal_str(v, "time") {
        Ok(ValueType::TimeType)
    } else if chars_equal_str(v, "date and time") {
        Ok(ValueType::DateTimeType)
    } else if chars_equal_str(v, "duration") {
        Ok(ValueType::DurationType)
    } else {
        Err(ParseErrorEnum::UnknownType(string_from_chars(v)))
    }
}

proof fn lemma_remove_all_absent(x: Seq<char>, p: Seq<char>)
    requires
        p.len() > 0,
        forall|i: int| 0 <= i && i + p.len() <= x.len() ==> x[i] != p[0],
    ensures
        spec_remove_all(x, p) == x,
    decreases x.len(),
{
    if x.len() > 0 {
        if p.len() <= x.len() {
            assert(x.take(p.len() as int)[0] != p[0]);
        }
        let t = x.drop_first();
        assert forall|i: int| 0 <= i && i + p.len() <= t.len() implies t[i] != p[0] by {
            assert(t[i] == x[i + 1]);
        }
        lemma_remove_all_absent(t, p);
        assert(x =~= seq![x[0]] + t);
    }
}

/// Whether a type is one that has a name of its own and can be read back:
/// not a range, not undefined, not a list.
pub open spec fn spec_is_named_type(t: ValueType) -> bool {
    !(t is RangeType) && !(t is UndefinedType) && !(t is ListType)
}

proof fn lemma_named_type_reads_back(t: ValueType)
    requires
        spec_is_named_type(t),
    ensures
        spec_type_from(spec_type_string(t)) == Ok::<ValueType, Seq<char>>(t),
        forall|i: int|
            0 <= i && i + 8 <= spec_type_string(t).len() ==> spec_type_string(t)[i] != 'l',
{
    reveal_strlit("list of ");
    reveal_strlit("number");
    reveal_strlit("string");
    reveal_strlit("boolean");
    reveal_strlit("date");
    reveal_strlit("time");
    reveal_strlit("date and time");
    reveal_strlit("duration");
    let s = spec_type_string(t);
    let p = "list of "@;
    assert(p.len() > s.len() || s[0] != 'l');
    if p.len() <= s.len() {
        assert(s.take(p.len() as int)[0] != p[0]);
    }
    match t {
        ValueType::NumberType => {},
        ValueType::StringType => {
            assert(s != "number"@);
        },
        ValueType::BooleanType => {
            assert(s != "number"@);
            assert(s != "string"@);
        },
        ValueType::DateType => {
            assert(s != "number"@);
            assert(s != "string"@);
            assert(s != "boolean"@);
        },
        ValueType::TimeType => {
            assert(s != "number"@);
            assert(s != "string"@);
            assert(s != "boolean"@);
            assert(s != "date"@);
        },
        ValueType::DateTimeType => {
            assert(s != "number"@);
            assert(s != "string"@);
            assert(s != "boolean"@);
            assert(s != "date"@);
            assert(s != "time"@);
        },
        ValueType::DurationType => {
            assert(s != "number"@);
            assert(s != "string"@);
            assert(s != "boolean"@);
            assert(s != "date"@);
            assert(s != "time"@);
            assert(s != "date and time"@);
        },
        _ => {},
    }
}

/// How a type is written reads back as that type, for a named type and for a list of a
/// named type (lists of lists read back flattened: `list of list of number` reads as a
/// list of numbers).
pub proof fn lemma_type_string_reads_back(t: ValueType)
    requires
        spec_is_named_type(t) || (t is ListType && spec_is_named_type(*t->ListType_0)),
    ensures
        spec_type_from(spec_type_string(t)) == Ok::<ValueType, Seq<char>>(t),
{
    reveal_strlit("list of ");
    if spec_is_named_type(t) {
        lemma_named_type_reads_back(t);
    } else {
        let inner = *t->ListType_0;
        lemma_named_type_reads_back(inner);
        let x = spec_type_string(inner);
        let p = "list of "@;
        let s = spec_type_string(t);
        assert(s == p + x);
        assert(s.take(p.len() as int) =~= p);
        assert(s.skip(p.len() as int) =~= x);
        lemma_remove_all_absent(x, p);
        assert(spec_remove_all(s, p) == spec_remove_all(s.skip(p.len() as int), p));
        assert(ValueType::ListType(Box::new(inner)) == t);
    }
}

/// A type as written in a declaration: a named built-in type, an alias of a user type, or
/// a list of such.
#[derive(Debug, PartialEq)]
pub enum ComplexTypeRef {
    Primitive(ValueType),
    Alias(String),
    List(Box<ComplexTypeRef>),
}

/// How a type reference is written.
pub open spec fn spec_type_ref_string(t: ComplexTypeRef) -> Seq<char>
    decreases t,
{
    match t {
        ComplexTypeRef::Primitive(vt) => spec_type_string(vt),
        ComplexTypeRef::Alias(name) => name@,
        ComplexTypeRef::List(inner) => "list of "@ + spec_type_ref_string(*inner),
    }
}

/// Whether a type reference names a user type somewhere.
pub open spec fn spec_contains_alias(t: ComplexTypeRef) -> bool
    decreases t,
{
    match t {
        ComplexTypeRef::Alias(_) => true,
        ComplexTypeRef::List(inner) => spec_contains_alias(*inner),
        ComplexTypeRef::Primitive(_) => false,
    }
}

/// Appends how `t` is written.
fn push_type_ref(out: &mut Vec<char>, t: &ComplexTypeRef)
    ensures
        final(out)@ == old(out)@ + spec_type_ref_string(*t),
    decreases *t,
{
    match t {
        ComplexTypeRef::Primitive(vt) => push_type_string(out, vt),
        ComplexTypeRef::Alias(name) => {
            let chars = chars_of(name.as_str());
            push_chars(out, chars.as_slice());
        },
        ComplexTypeRef::List(inner) => {
            push_str_chars(out, "list of ");
            push_type_ref(out, &**inner);
            assert(out@ =~= old(out)@ + spec_type_ref_string(*t));
        },
    }
}

impl ComplexTypeRef {
    /// How the type reference is written.
    pub fn to_code(&self) -> (res: String)
        ensures
            res@ == spec_type_ref_string(*self),
    {
        let mut out: Vec<char> = Vec::new();
        push_type_ref(&mut out, self);
        assert(out@ =~= spec_type_ref_string(*self));
        string_from_chars(out.as_slice())
    }

    /// Whether the reference names a user type somewhere.
    pub fn contains_alias(&self) -> (res: bool)
        ensures
            res == spec_contains_alias(*self),
        decreases *self,
    {
        match self {
            ComplexTypeRef::Alias(_) => true,
            ComplexTypeRef::List(inner) => (&**inner).contains_alias(),
            ComplexTypeRef::Primitive(_) => false,
        }
    }
}

/// A copy of a type reference.
pub fn clone_type_ref(t: &ComplexTypeRef) -> (res: ComplexTypeRef)
    ensures
        res == *t,
    decreases *t,
{
    match t {
        ComplexTypeRef::Primitive(vt) => ComplexTypeRef::Primitive(clone_type(vt)),
        ComplexTypeRef::Alias(name) => ComplexTypeRef::Alias(name.clone()),
        ComplexTypeRef::List(inner) => ComplexTypeRef::List(Box::new(clone_type_ref(&**inner))),
    }
}

impl Clone for ComplexTypeRef {
    fn clone(&self) -> (res: Self)
        ensures
            res == *self,
    {
        clone_type_ref(self)
    }
}

} // verus!
