use vstd::prelude::*;

use crate::names_order::{
    binary_search_names, lemma_adjacent_sorted_is_sorted, names_adjacent_sorted,
    names_strictly_sorted, str_lt,
};

verus! {

/// How many arguments a function takes: one, two, one or more, or a fixed count
/// for a user function.
#[derive(Debug, PartialEq, Eq, Clone, Copy, Structural)]
pub enum EFunctionType {
    Unary,
    Binary,
    Multi,
    Custom(u8),
}

/// A built-in function: its name with its implementation, its argument check and its
/// result type.
#[derive(Debug, Clone, PartialEq, Eq, Hash)]
pub struct FunctionHolder<T, V, R> {
    pub name: &'static str,
    pub function: T,
    pub validation: V,
    pub return_type: R,
}

/// The names of a table of strings.
pub open spec fn names_view(names: Seq<&'static str>) -> Seq<Seq<char>> {
    names.map_values(|s: &'static str| s@)
}

/// The names of the built-in functions of one argument, in dictionary order.
pub open spec fn spec_unary_built_in_names() -> Seq<Seq<char>> {
    seq![
        "count"@,
        "date"@,
        "datetime"@,
        "dayOfWeek"@,
        "distinctValues"@,
        "duplicateValues"@,
        "duration"@,
        "flatten"@,
        "fromBase64"@,
        "isEmpty"@,
        "lastDayOfMonth"@,
        "length"@,
        "max"@,
        "mean"@,
        "median"@,
        "min"@,
        "mode"@,
        "monthOfYear"@,
        "product"@,
        "reverse"@,
        "sanitizeFilename"@,
        "sort"@,
        "sortDescending"@,
        "stddev"@,
        "sum"@,
        "time"@,
        "toBase64"@,
        "toLowerCase"@,
        "toString"@,
        "toUpperCase"@,
        "trim"@,
    ]
}

/// The names of the built-in functions of one argument, in dictionary order.
pub fn unary_built_in_names() -> (res: Vec<&'static str>)
    ensures
        names_view(res@) == spec_unary_built_in_names(),
{
    let res: Vec<&'static str> = vec![
        "count",
        "date",
        "datetime",
        "dayOfWeek",
        "distinctValues",
        "duplicateValues",
        "duration",
        "flatten",
        "fromBase64",
        "isEmpty",
        "lastDayOfMonth",
        "length",
        "max",
        "mean",
        "median",
        "min",
        "mode",
        "monthOfYear",
        "product",
        "reverse",
        "sanitizeFilename",
        "sort",
        "sortDescending",
        "stddev",
        "sum",
        "time",
        "toBase64",
        "toLowerCase",
        "toString",
        "toUpperCase",
        "trim",
    ];
    assert(names_view(res@) =~= spec_unary_built_in_names());
    res
}

/// The names of the built-in functions of one argument are in strict dictionary order.
pub proof fn lemma_unary_names_sorted()
    ensures
        names_strictly_sorted(spec_unary_built_in_names()),
{
    reveal_strlit("count");
    reveal_strlit("date");
    reveal_strlit("datetime");
    reveal_strlit("dayOfWeek");
    reveal_strlit("distinctValues");
    reveal_strlit("duplicateValues");
    reveal_strlit("duration");
    reveal_strlit("flatten");
    reveal_strlit("fromBase64");
    reveal_strlit("isEmpty");
    reveal_strlit("lastDayOfMonth");
    reveal_strlit("length");
    reveal_strlit("max");
    reveal_strlit("mean");
    reveal_strlit("median");
    reveal_strlit("min");
    reveal_strlit("mode");
    reveal_strlit("monthOfYear");
    reveal_strlit("product");
    reveal_strlit("reverse");
    reveal_strlit("sanitizeFilename");
    reveal_strlit("sort");
    reveal_strlit("sortDescending");
    reveal_strlit("stddev");
    reveal_strlit("sum");
    reveal_strlit("time");
    reveal_strlit("toBase64");
    reveal_strlit("toLowerCase");
    reveal_strlit("toString");
    reveal_strlit("toUpperCase");
    reveal_strlit("trim");
    let names = spec_unary_built_in_names();
    reveal_with_fuel(str_lt, 16);
    assert(str_lt(names[0], names[1]));
    assert(str_lt(names[1], names[2]));
    assert(str_lt(names[2], names[3]));
    assert(str_lt(names[3], names[4]));
    assert(str_lt(names[4], names[5]));
    assert(str_lt(names[5], names[6]));
    assert(str_lt(names[6], names[7]));
    assert(str_lt(names[7], names[8]));
    assert(str_lt(names[8], names[9]));
    assert(str_lt(names[9], names[10]));
    assert(str_lt(names[10], names[11]));
    assert(str_lt(names[11], names[12]));
    assert(str_lt(names[12], names[13]));
    assert(str_lt(names[13], names[14]));
    assert(str_lt(names[14], names[15]));
    assert(str_lt(names[15], names[16]));
    assert(str_lt(names[16], names[17]));
    assert(str_lt(names[17], names[18]));
    assert(str_lt(names[18], names[19]));
    assert(str_lt(names[19], names[20]));
    assert(str_lt(names[20], names[21]));
    assert(str_lt(names[21], names[22]));
    assert(str_lt(names[22], names[23]));
    assert(str_lt(names[23], names[24]));
    assert(str_lt(names[24], names[25]));
    assert(str_lt(names[25], names[26]));
    assert(str_lt(names[26], names[27]));
    assert(str_lt(names[27], names[28]));
    assert(str_lt(names[28], names[29]));
    assert(str_lt(names[29], names[30]));
    assert(names_adjacent_sorted(names));
    lemma_adjacent_sorted_is_sorted(names);
}

/// The position of `name` among the built-in functions of one argument.
pub fn lookup_unary(name: &str) -> (res: Option<usize>)
    ensures
        res matches Some(i) ==> i < spec_unary_built_in_names().len() && spec_unary_built_in_names()[i as int] == name@,
        res is None ==> !spec_unary_built_in_names().contains(name@),
{
    let names = unary_built_in_names();
    proof {
        lemma_unary_names_sorted();
    }
    let res = binary_search_names(&names, name);
    proof {
        if res is None {
            if spec_unary_built_in_names().contains(name@) {
                let i = choose|i: int| 0 <= i < names@.len() && spec_unary_built_in_names()[i] == name@;
                assert(names_view(names@)[i] == names@[i]@);
            }
        } else {
            assert(names_view(names@)[res->0 as int] == names@[res->0 as int]@);
        }
    }
    res
}

/// The names of the built-in functions of two arguments, in dictionary order.
pub open spec fn spec_binary_built_in_names() -> Seq<Seq<char>> {
    seq![
        "charAt"@,
        "charCodeAt"@,
        "contains"@,
        "endsWith"@,
        "find"@,
        "indexOf"@,
        "interpolate"@,
        "lastIndexOf"@,
        "partition"@,
        "regexSplit"@,
        "remove"@,
        "repeat"@,
        "split"@,
        "startsWith"@,
        "substringAfter"@,
        "substringBefore"@,
    ]
}

/// The names of the built-in functions of two arguments, in dictionary order.
pub fn binary_built_in_names() -> (res: Vec<&'static str>)
    ensures
        names_view(res@) == spec_binary_built_in_names(),
{
    let res: Vec<&'static str> = vec![
        "charAt",
        "charCodeAt",
        "contains",
        "endsWith",
        "find",
        "indexOf",
        "interpolate",
        "lastIndexOf",
        "partition",
        "regexSplit",
        "remove",
        "repeat",
        "split",
        "startsWith",
        "substringAfter",
        "substringBefore",
    ];
    assert(names_view(res@) =~= spec_binary_built_in_names());
    res
}

/// The names of the built-in functions of two arguments are in strict dictionary order.
pub proof fn lemma_binary_names_sorted()
    ensures
        names_strictly_sorted(spec_binary_built_in_names()),
{
    reveal_strlit("charAt");
    reveal_strlit("charCodeAt");
    reveal_strlit("contains");
    reveal_strlit("endsWith");
    reveal_strlit("find");
    reveal_strlit("indexOf");
    reveal_strlit("interpolate");
    reveal_strlit("lastIndexOf");
    reveal_strlit("partition");
    reveal_strlit("regexSplit");
    reveal_strlit("remove");
    reveal_strlit("repeat");
    reveal_strlit("split");
    reveal_strlit("startsWith");
    reveal_strlit("substringAfter");
    reveal_strlit("substringBefore");
    let names = spec_binary_built_in_names();
    reveal_with_fuel(str_lt, 16);
    assert(str_lt(names[0], names[1]));
    assert(str_lt(names[1], names[2]));
    assert(str_lt(names[2], names[3]));
    assert(str_lt(names[3], names[4]));
    assert(str_lt(names[4], names[5]));
    assert(str_lt(names[5], names[6]));
    assert(str_lt(names[6], names[7]));
    assert(str_lt(names[7], names[8]));
    assert(str_lt(names[8], names[9]));
    assert(str_lt(names[9], names[10]));
    assert(str_lt(names[10], names[11]));
    assert(str_lt(names[11], names[12]));
    assert(str_lt(names[12], names[13]));
    assert(str_lt(names[13], names[14]));
    assert(str_lt(names[14], names[15]));
    assert(names_adjacent_sorted(names));
    lemma_adjacent_sorted_is_sorted(names);
}

/// The position of `name` among the built-in functions of two arguments.
pub fn lookup_binary(name: &str) -> (res: Option<usize>)
    ensures
        res matches Some(i) ==> i < spec_binary_built_in_names().len() && spec_binary_built_in_names()[i as int] == name@,
        res is None ==> !spec_binary_built_in_names().contains(name@),
{
    let names = binary_built_in_names();
    proof {
        lemma_binary_names_sorted();
    }
    let res = binary_search_names(&names, name);
    proof {
        if res is None {
            if spec_binary_built_in_names().contains(name@) {
                let i = choose|i: int| 0 <= i < names@.len() && spec_binary_built_in_names()[i] == name@;
                assert(names_view(names@)[i] == names@[i]@);
            }
        } else {
            assert(names_view(names@)[res->0 as int] == names@[res->0 as int]@);
        }
    }
    res
}

/// The names of the built-in functions of one or more arguments, in dictionary order.
pub open spec fn spec_multi_built_in_names() -> Seq<Seq<char>> {
    seq![
        "append"@,
        "concatenate"@,
        "fromCharCode"@,
        "insertBefore"@,
        "join"@,
        "max"@,
        "min"@,
        "padEnd"@,
        "padStart"@,
        "regexReplace"@,
        "replace"@,
        "replaceFirst"@,
        "replaceLast"@,
        "sublist"@,
        "substring"@,
        "sum"@,
        "union"@,
    ]
}

/// The names of the built-in functions of one or more arguments, in dictionary order.
pub fn multi_built_in_names() -> (res: Vec<&'static str>)
    ensures
        names_view(res@) == spec_multi_built_in_names(),
{
    let res: Vec<&'static str> = vec![
        "append",
        "concatenate",
        "fromCharCode",
        "insertBefore",
        "join",
        "max",
        "min",
        "padEnd",
        "padStart",
        "regexReplace",
        "replace",
        "replaceFirst",
        "replaceLast",
        "sublist",
        "substring",
        "sum",
        "union",
    ];
    assert(names_view(res@) =~= spec_multi_built_in_names());
    res
}

/// The names of the built-in functions of one or more arguments are in strict dictionary order.
pub proof fn lemma_multi_names_sorted()
    ensures
        names_strictly_sorted(spec_multi_built_in_names()),
{
    reveal_strlit("append");
    reveal_strlit("concatenate");
    reveal_strlit("fromCharCode");
    reveal_strlit("insertBefore");
    reveal_strlit("join");
    reveal_strlit("max");
    reveal_strlit("min");
    reveal_strlit("padEnd");
    reveal_strlit("padStart");
    reveal_strlit("regexReplace");
    reveal_strlit("replace");
    reveal_strlit("replaceFirst");
    reveal_strlit("replaceLast");
    reveal_strlit("sublist");
    reveal_strlit("substring");
    reveal_strlit("sum");
    reveal_strlit("union");
    let names = spec_multi_built_in_names();
    reveal_with_fuel(str_lt, 16);
    assert(str_lt(names[0], names[1]));
    assert(str_lt(names[1], names[2]));
    assert(str_lt(names[2], names[3]));
    assert(str_lt(names[3], names[4]));
    assert(str_lt(names[4], names[5]));
    assert(str_lt(names[5], names[6]));
    assert(str_lt(names[6], names[7]));
    assert(str_lt(names[7], names[8]));
    assert(str_lt(names[8], names[9]));
    assert(str_lt(names[9], names[10]));
    assert(str_lt(names[10], names[11]));
    assert(str_lt(names[11], names[12]));
    assert(str_lt(names[12], names[13]));
    assert(str_lt(names[13], names[14]));
    assert(str_lt(names[14], names[15]));
    assert(str_lt(names[15], names[16]));
    assert(names_adjacent_sorted(names));
    lemma_adjacent_sorted_is_sorted(names);
}

/// The position of `name` among the built-in functions of one or more arguments.
pub fn lookup_multi(name: &str) -> (res: Option<usize>)
    ensures
        res matches Some(i) ==> i < spec_multi_built_in_names().len() && spec_multi_built_in_names()[i as int] == name@,
        res is None ==> !spec_multi_built_in_names().contains(name@),
{
    let names = multi_built_in_names();
    proof {
        lemma_multi_names_sorted();
    }
    let res = binary_search_names(&names, name);
    proof {
        if res is None {
            if spec_multi_built_in_names().contains(name@) {
                let i = choose|i: int| 0 <= i < names@.len() && spec_multi_built_in_names()[i] == name@;
                assert(names_view(names@)[i] == names@[i]@);
            }
        } else {
            assert(names_view(names@)[res->0 as int] == names@[res->0 as int]@);
        }
    }
    res
}

/// Every built-in function name with its kind, in dictionary order of the names.
pub open spec fn spec_built_in_all_functions() -> Seq<(Seq<char>, EFunctionType)> {
    seq![
        ("all"@, EFunctionType::Unary),
        ("any"@, EFunctionType::Unary),
        ("append"@, EFunctionType::Multi),
        ("charAt"@, EFunctionType::Binary),
        ("charCodeAt"@, EFunctionType::Binary),
        ("concatenate"@, EFunctionType::Multi),
        ("count"@, EFunctionType::Unary),
        ("date"@, EFunctionType::Unary),
        ("datetime"@, EFunctionType::Unary),
        ("dayOfWeek"@, EFunctionType::Unary),
        ("distinctValues"@, EFunctionType::Unary),
        ("duplicateValues"@, EFunctionType::Unary),
        ("duration"@, EFunctionType::Unary),
        ("endsWith"@, EFunctionType::Binary),
        ("find"@, EFunctionType::Binary),
        ("flatten"@, EFunctionType::Unary),
        ("fromBase64"@, EFunctionType::Unary),
        ("fromCharCode"@, EFunctionType::Multi),
        ("indexOf"@, EFunctionType::Binary),
        ("insertBefore"@, EFunctionType::Multi),
        ("interpolate"@, EFunctionType::Binary),
        ("isEmpty"@, EFunctionType::Unary),
        ("join"@, EFunctionType::Multi),
        ("lastDayOfMonth"@, EFunctionType::Unary),
        ("lastIndexOf"@, EFunctionType::Binary),
        ("length"@, EFunctionType::Unary),
        ("max"@, EFunctionType::Multi),
        ("mean"@, EFunctionType::Unary),
        ("median"@, EFunctionType::Unary),
        ("min"@, EFunctionType::Multi),
        ("mode"@, EFunctionType::Unary),
        ("monthOfYear"@, EFunctionType::Unary),
        ("padEnd"@, EFunctionType::Multi),
        ("padStart"@, EFunctionType::Multi),
        ("partition"@, EFunctionType::Binary),
        ("product"@, EFunctionType::Unary),
        ("regexReplace"@, EFunctionType::Multi),
        ("regexSplit"@, EFunctionType::Binary),
        ("remove"@, EFunctionType::Binary),
        ("repeat"@, EFunctionType::Binary),
        ("replace"@, EFunctionType::Multi),
        ("replaceFirst"@, EFunctionType::Multi),
        ("replaceLast"@, EFunctionType::Multi),
        ("reverse"@, EFunctionType::Unary),
        ("sanitizeFilename"@, EFunctionType::Unary),
        ("sort"@, EFunctionType::Unary),
        ("sortDescending"@, EFunctionType::Unary),
        ("split"@, EFunctionType::Binary),
        ("startsWith"@, EFunctionType::Binary),
        ("stddev"@, EFunctionType::Unary),
        ("sublist"@, EFunctionType::Multi),
        ("substring"@, EFunctionType::Multi),
        ("substringAfter"@, EFunctionType::Binary),
        ("substringBefore"@, EFunctionType::Binary),
        ("sum"@, EFunctionType::Multi),
        ("time"@, EFunctionType::Unary),
        ("toBase64"@, EFunctionType::Unary),
        ("toLowerCase"@, EFunctionType::Unary),
        ("toString"@, EFunctionType::Unary),
        ("toUpperCase"@, EFunctionType::Unary),
        ("trim"@, EFunctionType::Unary),
        ("union"@, EFunctionType::Multi),
    ]
}

/// The names of every built-in function, in dictionary order.
pub open spec fn spec_built_in_all_names() -> Seq<Seq<char>> {
    spec_built_in_all_functions().map_values(|p: (Seq<char>, EFunctionType)| p.0)
}

/// Every built-in function name with its kind, in dictionary order of the names.
pub fn built_in_all_functions() -> (res: Vec<(&'static str, EFunctionType)>)
    ensures
        res@.len() == spec_built_in_all_functions().len(),
        forall|i: int| 0 <= i < res@.len() ==> (#[trigger] res@[i]).0@ == spec_built_in_all_functions()[i].0 && res@[i].1 == spec_built_in_all_functions()[i].1,
{
    let res: Vec<(&'static str, EFunctionType)> = vec![
        ("all", EFunctionType::Unary),
        ("any", EFunctionType::Unary),
        ("append", EFunctionType::Multi),
        ("charAt", EFunctionType::Binary),
        ("charCodeAt", EFunctionType::Binary),
        ("concatenate", EFunctionType::Multi),
        ("count", EFunctionType::Unary),
        ("date", EFunctionType::Unary),
        ("datetime", EFunctionType::Unary),
        ("dayOfWeek", EFunctionType::Unary),
        ("distinctValues", EFunctionType::Unary),
        ("duplicateValues", EFunctionType::Unary),
        ("duration", EFunctionType::Unary),
        ("endsWith", EFunctionType::Binary),
        ("find", EFunctionType::Binary),
        ("flatten", EFunctionType::Unary),
        ("fromBase64", EFunctionType::Unary),
        ("fromCharCode", EFunctionType::Multi),
        ("indexOf", EFunctionType::Binary),
        ("insertBefore", EFunctionType::Multi),
        ("interpolate", EFunctionType::Binary),
        ("isEmpty", EFunctionType::Unary),
        ("join", EFunctionType::Multi),
        ("lastDayOfMonth", EFunctionType::Unary),
        ("lastIndexOf", EFunctionType::Binary),
        ("length", EFunctionType::Unary),
        ("max", EFunctionType::Multi),
        ("mean", EFunctionType::Unary),
        ("median", EFunctionType::Unary),
        ("min", EFunctionType::Multi),
        ("mode", EFunctionType::Unary),
        ("monthOfYear", EFunctionType::Unary),
        ("padEnd", EFunctionType::Multi),
        ("padStart", EFunctionType::Multi),
        ("partition", EFunctionType::Binary),
        ("product", EFunctionType::Unary),
        ("regexReplace", EFunctionType::Multi),
        ("regexSplit", EFunctionType::Binary),
        ("remove", EFunctionType::Binary),
        ("repeat", EFunctionType::Binary),
        ("replace", EFunctionType::Multi),
        ("replaceFirst", EFunctionType::Multi),
        ("replaceLast", EFunctionType::Multi),
        ("reverse", EFunctionType::Unary),
        ("sanitizeFilename", EFunctionType::Unary),
        ("sort", EFunctionType::Unary),
        ("sortDescending", EFunctionType::Unary),
        ("split", EFunctionType::Binary),
        ("startsWith", EFunctionType::Binary),
        ("stddev", EFunctionType::Unary),
        ("sublist", EFunctionType::Multi),
        ("substring", EFunctionType::Multi),
        ("substringAfter", EFunctionType::Binary),
        ("substringBefore", EFunctionType::Binary),
        ("sum", EFunctionType::Multi),
        ("time", EFunctionType::Unary),
        ("toBase64", EFunctionType::Unary),
        ("toLowerCase", EFunctionType::Unary),
        ("toString", EFunctionType::Unary),
        ("toUpperCase", EFunctionType::Unary),
        ("trim", EFunctionType::Unary),
        ("union", EFunctionType::Multi),
    ];
    res
}

/// The names of every built-in function are in strict dictionary order.
pub proof fn lemma_all_names_sorted()
    ensures
        names_strictly_sorted(spec_built_in_all_names()),
{
    reveal_strlit("all");
    reveal_strlit("any");
    reveal_strlit("append");
    reveal_strlit("charAt");
    reveal_strlit("charCodeAt");
    reveal_strlit("concatenate");
    reveal_strlit("count");
    reveal_strlit("date");
    reveal_strlit("datetime");
    reveal_strlit("dayOfWeek");
    reveal_strlit("distinctValues");
    reveal_strlit("duplicateValues");
    reveal_strlit("duration");
    reveal_strlit("endsWith");
    reveal_strlit("find");
    reveal_strlit("flatten");
    reveal_strlit("fromBase64");
    reveal_strlit("fromCharCode");
    reveal_strlit("indexOf");
    reveal_strlit("insertBefore");
    reveal_strlit("interpolate");
    reveal_strlit("isEmpty");
    reveal_strlit("join");
    reveal_strlit("lastDayOfMonth");
    reveal_strlit("lastIndexOf");
    reveal_strlit("length");
    reveal_strlit("max");
    reveal_strlit("mean");
    reveal_strlit("median");
    reveal_strlit("min");
    reveal_strlit("mode");
    reveal_strlit("monthOfYear");
    reveal_strlit("padEnd");
    reveal_strlit("padStart");
    reveal_strlit("partition");
    reveal_strlit("product");
    reveal_strlit("regexReplace");
    reveal_strlit("regexSplit");
    reveal_strlit("remove");
    reveal_strlit("repeat");
    reveal_strlit("replace");
    reveal_strlit("replaceFirst");
    reveal_strlit("replaceLast");
    reveal_strlit("reverse");
    reveal_strlit("sanitizeFilename");
    reveal_strlit("sort");
    reveal_strlit("sortDescending");
    reveal_strlit("split");
    reveal_strlit("startsWith");
    reveal_strlit("stddev");
    reveal_strlit("sublist");
    reveal_strlit("substring");
    reveal_strlit("substringAfter");
    reveal_strlit("substringBefore");
    reveal_strlit("sum");
    reveal_strlit("time");
    reveal_strlit("toBase64");
    reveal_strlit("toLowerCase");
    reveal_strlit("toString");
    reveal_strlit("toUpperCase");
    reveal_strlit("trim");
    reveal_strlit("union");
    let names = spec_built_in_all_names();
    assert(names =~= seq![
        "all"@,
        "any"@,
        "append"@,
        "charAt"@,
        "charCodeAt"@,
        "concatenate"@,
        "count"@,
        "date"@,
        "datetime"@,
        "dayOfWeek"@,
        "distinctValues"@,
        "duplicateValues"@,
        "duration"@,
        "endsWith"@,
        "find"@,
        "flatten"@,
        "fromBase64"@,
        "fromCharCode"@,
        "indexOf"@,
        "insertBefore"@,
        "interpolate"@,
        "isEmpty"@,
        "join"@,
        "lastDayOfMonth"@,
        "lastIndexOf"@,
        "length"@,
        "max"@,
        "mean"@,
        "median"@,
        "min"@,
        "mode"@,
        "monthOfYear"@,
        "padEnd"@,
        "padStart"@,
        "partition"@,
        "product"@,
        "regexReplace"@,
        "regexSplit"@,
        "remove"@,
        "repeat"@,
        "replace"@,
        "replaceFirst"@,
        "replaceLast"@,
        "reverse"@,
        "sanitizeFilename"@,
        "sort"@,
        "sortDescending"@,
        "split"@,
        "startsWith"@,
        "stddev"@,
        "sublist"@,
        "substring"@,
        "substringAfter"@,
        "substringBefore"@,
        "sum"@,
        "time"@,
        "toBase64"@,
        "toLowerCase"@,
        "toString"@,
        "toUpperCase"@,
        "trim"@,
        "union"@,
    ]);
    reveal_with_fuel(str_lt, 16);
    assert(str_lt(names[0], names[1]));
    assert(str_lt(names[1], names[2]));
    assert(str_lt(names[2], names[3]));
    assert(str_lt(names[3], names[4]));
    assert(str_lt(names[4], names[5]));
    assert(str_lt(names[5], names[6]));
    assert(str_lt(names[6], names[7]));
    assert(str_lt(names[7], names[8]));
    assert(str_lt(names[8], names[9]));
    assert(str_lt(names[9], names[10]));
    assert(str_lt(names[10], names[11]));
    assert(str_lt(names[11], names[12]));
    assert(str_lt(names[12], names[13]));
    assert(str_lt(names[13], names[14]));
    assert(str_lt(names[14], names[15]));
    assert(str_lt(names[15], names[16]));
    assert(str_lt(names[16], names[17]));
    assert(str_lt(names[17], names[18]));
    assert(str_lt(names[18], names[19]));
    assert(str_lt(names[19], names[20]));
    assert(str_lt(names[20], names[21]));
    assert(str_lt(names[21], names[22]));
    assert(str_lt(names[22], names[23]));
    assert(str_lt(names[23], names[24]));
    assert(str_lt(names[24], names[25]));
    assert(str_lt(names[25], names[26]));
    assert(str_lt(names[26], names[27]));
    assert(str_lt(names[27], names[28]));
    assert(str_lt(names[28], names[29]));
    assert(str_lt(names[29], names[30]));
    assert(str_lt(names[30], names[31]));
    assert(str_lt(names[31], names[32]));
    assert(str_lt(names[32], names[33]));
    assert(str_lt(names[33], names[34]));
    assert(str_lt(names[34], names[35]));
    assert(str_lt(names[35], names[36]));
    assert(str_lt(names[36], names[37]));
    assert(str_lt(names[37], names[38]));
    assert(str_lt(names[38], names[39]));
    assert(str_lt(names[39], names[40]));
    assert(str_lt(names[40], names[41]));
    assert(str_lt(names[41], names[42]));
    assert(str_lt(names[42], names[43]));
    assert(str_lt(names[43], names[44]));
    assert(str_lt(names[44], names[45]));
    assert(str_lt(names[45], names[46]));
    assert(str_lt(names[46], names[47]));
    assert(str_lt(names[47], names[48]));
    assert(str_lt(names[48], names[49]));
    assert(str_lt(names[49], names[50]));
    assert(str_lt(names[50], names[51]));
    assert(str_lt(names[51], names[52]));
    assert(str_lt(names[52], names[53]));
    assert(str_lt(names[53], names[54]));
    assert(str_lt(names[54], names[55]));
    assert(str_lt(names[55], names[56]));
    assert(str_lt(names[56], names[57]));
    assert(str_lt(names[57], names[58]));
    assert(str_lt(names[58], names[59]));
    assert(str_lt(names[59], names[60]));
    assert(str_lt(names[60], names[61]));
    assert(names_adjacent_sorted(names));
    lemma_adjacent_sorted_is_sorted(names);
}

/// The kind of the built-in function called `name`, if there is one.
pub fn lookup_built_in_function(name: &str) -> (res: Option<EFunctionType>)
    ensures
        res is Some <==> spec_built_in_all_names().contains(name@),
        res matches Some(t) ==> exists|i: int|
            0 <= i < spec_built_in_all_functions().len() && spec_built_in_all_functions()[i] == (
            name@,
            t,
        ),
{
    let table = built_in_all_functions();
    let mut names: Vec<&'static str> = Vec::new();
    let mut k: usize = 0;
    while k < table.len()
        invariant
            k <= table@.len(),
            table@.len() == spec_built_in_all_functions().len(),
            forall|i: int| 0 <= i < table@.len() ==> (#[trigger] table@[i]).0@ == spec_built_in_all_functions()[i].0 && table@[i].1 == spec_built_in_all_functions()[i].1,
            names@.len() == k,
            forall|i: int| 0 <= i < k ==> (#[trigger] names@[i])@ == spec_built_in_all_functions()[i].0,
        decreases table@.len() - k,
    {
        names.push(table[k].0);
        k = k + 1;
    }
    proof {
        lemma_all_names_sorted();
        assert(names_view(names@) =~= spec_built_in_all_names());
    }
    match binary_search_names(&names, name) {
        Some(i) => {
            let t = table[i].1;
            proof {
                assert(spec_built_in_all_functions()[i as int] == (name@, t));
                assert(spec_built_in_all_names()[i as int] == name@);
            }
            Some(t)
        },
        None => {
            proof {
                if spec_built_in_all_names().contains(name@) {
                    let i = choose|i: int| 0 <= i < spec_built_in_all_names().len() && spec_built_in_all_names()[i] == name@;
                    assert(names@[i]@ == name@);
                }
            }
            None
        },
    }
}

} // verus!
