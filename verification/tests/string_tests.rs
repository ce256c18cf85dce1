use edge_rules::errors::RuntimeErrorEnum;
use edge_rules::link_rules::{
    return_flatten_type, return_index_of_type, return_partition_type, validate_binary_contains_mixed,
    validate_binary_index_of_mixed,
    validate_binary_list_number, validate_binary_partition, validate_multi_append,
    validate_multi_concatenate, validate_multi_insert_before, validate_multi_join,
    validate_multi_sublist, validate_multi_union, validate_unary_boolean_list, validate_unary_list,
    validate_unary_list_numbers, validate_unary_reverse_mixed,
};
use edge_rules::operators::ComparatorEnum;
use edge_rules::types::{SpecialValueEnum, StringEnum};
use edge_rules::utils::to_display;
use edge_rules::value_ops::{
    compare_booleans, compare_string_values, concat_string_values, join_string_values,
};
use edge_rules::errors::LinkingErrorEnum;
use edge_rules::link_rules::{
    expect_date_arg, expect_string_arg, list_item_as_second_arg, number_range_or_any_list,
    number_range_or_number_list, validate_binary_string_any, validate_binary_string_number,
    validate_binary_string_string, validate_multi_all_args_numbers, validate_multi_from_char_code,
    validate_multi_pad, validate_multi_replace, validate_multi_substring, validate_unary_string,
};
use edge_rules::string_functions::{
    char_at, char_code_at, contains, ends_with, from_char_code, index_of, last_index_of, length,
    pad_end, pad_start, repeat, replace, replace_first, replace_last, reverse, sanitize_filename,
    split, starts_with, substring, substring_after, substring_before, to_lower, to_upper, trim,
};
use edge_rules::types::ValueType;

fn s(text: &str) -> String {
    text.to_string()
}

#[test]
fn length_reverse_and_sanitize() {
    assert_eq!(length("héllo"), 5);
    assert_eq!(length(""), 0);
    assert_eq!(reverse("abc"), "cba");
    assert_eq!(reverse("añb"), "bña");
    assert_eq!(sanitize_filename("a/b\\c:d*e?f\"g<h>i|j.txt"), "abcdefghij.txt");
}

#[test]
fn searching() {
    assert!(contains("hello world", "o w"));
    assert!(contains("hello", ""));
    assert!(!contains("hello", "world"));
    assert!(starts_with("hello", "he"));
    assert!(!starts_with("he", "hello"));
    assert!(ends_with("hello", "llo"));
    assert!(ends_with("hello", ""));
    assert!(!ends_with("hello", "hel"));
    assert_eq!(index_of("hello", "l"), 2);
    assert_eq!(last_index_of("hello", "l"), 3);
    assert_eq!(index_of("hello", "z"), -1);
    assert_eq!(index_of("héllo", "l"), "héllo".find("l").unwrap() as i64);
    assert_eq!(last_index_of("héllo", ""), "héllo".len() as i64);
    assert_eq!(index_of("abc", ""), 0);
}

#[test]
fn characters_by_position() {
    assert_eq!(char_at("hello", 1), "e");
    assert_eq!(char_at("hello", 5), "");
    assert_eq!(char_at("hello", -1), "");
    assert_eq!(char_at("a\0b", 1), "");
    assert_eq!(char_code_at("A", 0), 65);
    assert_eq!(char_code_at("A", 3), 0);
    assert_eq!(from_char_code(&[72, 105, 0xD800, 33, 0x1_0000_0041]), "Hi!A");
}

#[test]
fn substrings() {
    assert_eq!(substring("hello world", 1, Some(5)), "hello");
    assert_eq!(substring("hello world", 7, None), "world");
    assert_eq!(substring("hello world", -5, None), "world");
    assert_eq!(substring("hello", 0, Some(2)), "he");
    assert_eq!(substring("hello", 4, Some(-2)), "el");
    assert_eq!(substring("hello", 10, Some(3)), "");
    assert_eq!(substring("hello", -10, Some(2)), "he");
    assert_eq!(substring_before("key=value", "="), "key");
    assert_eq!(substring_after("key=value", "="), "value");
    assert_eq!(substring_before("key", "="), "");
    assert_eq!(substring_after("key", "="), "");
    assert_eq!(substring_after("key", ""), "key");
}

#[test]
fn replacing() {
    assert_eq!(replace("a-b-c", "-", "+", None), "a+b+c");
    assert_eq!(replace("aaa", "aa", "b", None), "aaa".replace("aa", "b"));
    assert_eq!(replace("abc", "", "-", None), "abc".replace("", "-"));
    assert_eq!(replace("", "", "-", None), "".replace("", "-"));
    assert_eq!(replace("Hello hello", "HELLO", "bye", Some("i")), "bye bye");
    assert_eq!(replace("Hello hello", "HELLO", "bye", Some("g")), "Hello hello");
    assert_eq!(replace_first("a-b-c", "-", "+"), "a+b-c");
    assert_eq!(replace_last("a-b-c", "-", "+"), "a-b+c");
    assert_eq!(replace_first("abc", "", "x"), "xabc");
    assert_eq!(replace_last("abc", "", "x"), "abcx");
    assert_eq!(replace_first("abc", "z", "x"), "abc");
}

#[test]
fn splitting_matches_std() {
    for (text, pattern) in [("a,b,,c", ","), ("abc", ""), ("", ""), ("", ","), ("aXXbXX", "XX"), ("abc", "abcd")] {
        let expected: Vec<String> = text.split(pattern).map(|p| p.to_string()).collect();
        assert_eq!(split(text, pattern), expected);
    }
}

#[test]
fn padding_and_repeating() {
    assert_eq!(pad_start("7", 3, Some("0")), "007");
    assert_eq!(pad_end("7", 3, None), "7  ");
    assert_eq!(pad_start("1234", 3, Some("0")), "1234");
    assert_eq!(pad_end("ab", 4, Some("")), "ab  ");
    assert_eq!(repeat("ab", 3), "ababab");
    assert_eq!(repeat("ab", -1), "");
}

#[test]
fn case_and_trim() {
    assert_eq!(to_upper("straße"), "STRASSE");
    assert_eq!(to_lower("ÀB"), "àb");
    assert_eq!(trim("\u{a0} hi \t\n"), "hi");
    assert_eq!(trim("   "), "");
}

#[test]
fn string_argument_rules() {
    assert!(validate_unary_string(ValueType::StringType).is_ok());
    let e = validate_unary_string(ValueType::NumberType).unwrap_err();
    assert_eq!(
        e.error,
        LinkingErrorEnum::TypesNotCompatible(None, ValueType::NumberType, Some(vec![ValueType::StringType]))
    );
    assert!(validate_binary_string_any(ValueType::StringType, ValueType::DateType).is_ok());
    assert!(validate_binary_string_string(ValueType::StringType, ValueType::StringType).is_ok());
    let e = validate_binary_string_number(ValueType::StringType, ValueType::StringType).unwrap_err();
    assert_eq!(
        e.error,
        LinkingErrorEnum::TypesNotCompatible(None, ValueType::StringType, Some(vec![ValueType::NumberType]))
    );
    let e = validate_multi_substring(vec![ValueType::StringType]).unwrap_err();
    assert_eq!(e.error, LinkingErrorEnum::OtherLinkingError(s("substring expects 2 or 3 arguments")));
    assert!(validate_multi_substring(vec![ValueType::StringType, ValueType::NumberType]).is_ok());
    let e = validate_multi_substring(vec![ValueType::StringType, ValueType::NumberType, ValueType::StringType])
        .unwrap_err();
    assert_eq!(
        e.error,
        LinkingErrorEnum::TypesNotCompatible(Some(s("arg3")), ValueType::StringType, Some(vec![ValueType::NumberType]))
    );
    let e = validate_multi_replace(vec![ValueType::StringType; 2]).unwrap_err();
    assert_eq!(e.error, LinkingErrorEnum::OtherLinkingError(s("replace expects 3 or 4 arguments")));
    assert!(validate_multi_replace(vec![ValueType::StringType; 4]).is_ok());
    assert!(validate_multi_from_char_code(vec![ValueType::NumberType; 3]).is_ok());
    assert!(validate_multi_all_args_numbers(vec![ValueType::NumberType, ValueType::DateType]).is_err());
    let e = validate_multi_pad(vec![ValueType::StringType, ValueType::NumberType]).unwrap_err();
    assert_eq!(e.error, LinkingErrorEnum::OtherLinkingError(s("padStart/padEnd expects 3 arguments")));
    assert!(validate_multi_pad(vec![ValueType::StringType, ValueType::NumberType, ValueType::StringType]).is_ok());
}

#[test]
fn list_argument_rules() {
    let numbers = ValueType::ListType(Box::new(ValueType::NumberType));
    assert!(list_item_as_second_arg(numbers.clone(), ValueType::NumberType).is_ok());
    let e = list_item_as_second_arg(numbers.clone(), ValueType::StringType).unwrap_err();
    assert_eq!(
        e.error,
        LinkingErrorEnum::DifferentTypesDetected(Some(s("function arguments")), ValueType::NumberType, ValueType::StringType)
    );
    let anything = ValueType::ListType(Box::new(ValueType::UndefinedType));
    assert!(list_item_as_second_arg(anything, ValueType::StringType).is_ok());
    assert!(list_item_as_second_arg(ValueType::StringType, ValueType::StringType).is_err());
    assert!(number_range_or_any_list(ValueType::ListType(Box::new(ValueType::StringType))).is_ok());
    assert!(number_range_or_any_list(ValueType::StringType).is_err());
    assert!(number_range_or_number_list(ValueType::ListType(Box::new(ValueType::DateType))).is_ok());
    let e = number_range_or_number_list(ValueType::ListType(Box::new(ValueType::StringType))).unwrap_err();
    assert_eq!(
        e.error,
        LinkingErrorEnum::TypesNotCompatible(
            None,
            ValueType::ListType(Box::new(ValueType::StringType)),
            Some(vec![ValueType::NumberType, ValueType::RangeType, numbers]),
        )
    );
    assert!(expect_string_arg(ValueType::StringType).is_ok());
    assert!(expect_date_arg(ValueType::StringType).is_err());
}

#[test]
fn string_values_add_compare_and_join() {
    let a = StringEnum::String(s("ab"));
    let c = StringEnum::Char('c');
    let missing = StringEnum::SV(SpecialValueEnum::Missing);
    assert_eq!(concat_string_values(&a, &c), StringEnum::String(s("abc")));
    assert_eq!(concat_string_values(&missing, &a), StringEnum::String(s("ab")));
    assert_eq!(a.to_display(), "'ab'");
    assert_eq!(c.to_display(), "c");
    assert_eq!(missing.to_display(), "Missing");
    assert_eq!(compare_string_values(&a, ComparatorEnum::Equals, &a).unwrap(), true);
    assert_eq!(compare_string_values(&a, ComparatorEnum::NotEquals, &c).unwrap(), true);
    assert_eq!(
        compare_string_values(&StringEnum::Char('a'), ComparatorEnum::Equals, &StringEnum::String(s("a"))).unwrap(),
        false
    );
    let e = compare_string_values(&a, ComparatorEnum::Less, &c).unwrap_err();
    assert_eq!(
        e.error,
        RuntimeErrorEnum::EvalError(s("Not possible to compare 'ab' < c"))
    );
    assert_eq!(compare_booleans(true, ComparatorEnum::NotEquals, false).unwrap(), true);
    let e = compare_booleans(true, ComparatorEnum::GreaterEquals, false).unwrap_err();
    assert_eq!(
        e.error,
        RuntimeErrorEnum::EvalError(s("Not possible to compare true >= false"))
    );
    let items = vec![StringEnum::String(s("x")), missing.clone(), StringEnum::Char('y'), StringEnum::String(s("z"))];
    assert_eq!(join_string_values(&items, ", ", "[", "]"), "[x, y, z]");
    assert_eq!(join_string_values(&Vec::new(), ", ", "<", ">"), "<>");
}

#[test]
fn list_linking_rules() {
    let list = |t: ValueType| ValueType::ListType(Box::new(t));
    let any = list(ValueType::UndefinedType);
    assert!(validate_unary_list(list(ValueType::DateType)).is_ok());
    let e = validate_unary_list(ValueType::DateType).unwrap_err();
    assert_eq!(
        e.error,
        LinkingErrorEnum::TypesNotCompatible(None, ValueType::DateType, Some(vec![any.clone()]))
    );
    assert!(validate_unary_list_numbers(list(list(ValueType::NumberType))).is_ok());
    let e = validate_unary_list_numbers(any.clone()).unwrap_err();
    assert_eq!(
        e.error,
        LinkingErrorEnum::TypesNotCompatible(None, any.clone(), Some(vec![list(ValueType::NumberType)]))
    );
    assert!(validate_unary_boolean_list(list(ValueType::BooleanType)).is_ok());
    assert!(validate_unary_boolean_list(list(list(ValueType::BooleanType))).is_err());
    assert_eq!(return_flatten_type(list(list(list(ValueType::TimeType)))), list(ValueType::TimeType));
    assert_eq!(return_flatten_type(ValueType::TimeType), ValueType::TimeType);
    assert!(validate_binary_list_number(list(ValueType::StringType), ValueType::NumberType).is_ok());
    assert!(validate_binary_partition(ValueType::StringType, ValueType::NumberType).is_err());
    assert!(validate_binary_contains_mixed(ValueType::StringType, ValueType::StringType).is_ok());
    assert!(validate_binary_contains_mixed(list(ValueType::NumberType), ValueType::NumberType).is_ok());
    assert!(validate_binary_contains_mixed(list(ValueType::NumberType), ValueType::StringType).is_err());
    assert!(validate_binary_contains_mixed(ValueType::NumberType, ValueType::NumberType).is_err());
    assert!(validate_binary_index_of_mixed(ValueType::StringType, ValueType::StringType).is_ok());
    assert!(validate_binary_index_of_mixed(ValueType::StringType, ValueType::NumberType).is_err());
    assert!(validate_binary_index_of_mixed(list(ValueType::DateType), ValueType::DateType).is_ok());
    assert!(validate_binary_index_of_mixed(list(ValueType::UndefinedType), ValueType::DateType).is_ok());
    assert!(validate_binary_index_of_mixed(list(ValueType::DateType), ValueType::TimeType).is_err());
    assert!(validate_unary_reverse_mixed(ValueType::StringType).is_ok());
    assert!(validate_unary_reverse_mixed(ValueType::BooleanType).is_err());
    assert_eq!(return_index_of_type(ValueType::StringType, ValueType::StringType), ValueType::NumberType);
    assert_eq!(return_index_of_type(any.clone(), ValueType::StringType), list(ValueType::NumberType));
    assert_eq!(return_partition_type(list(ValueType::NumberType), ValueType::NumberType), list(list(ValueType::NumberType)));
    let e = validate_multi_sublist(vec![any.clone()]).unwrap_err();
    assert_eq!(e.error, LinkingErrorEnum::OtherLinkingError(s("sublist expects 2 or 3 arguments")));
    assert!(validate_multi_sublist(vec![any.clone(), ValueType::NumberType, ValueType::NumberType]).is_ok());
    assert!(validate_multi_join(vec![list(ValueType::StringType), ValueType::StringType]).is_ok());
    assert!(validate_multi_join(vec![list(ValueType::NumberType)]).is_err());
    assert!(validate_multi_concatenate(vec![list(ValueType::NumberType), list(ValueType::NumberType)]).is_ok());
    let e = validate_multi_union(vec![list(ValueType::NumberType), list(ValueType::StringType)]).unwrap_err();
    assert_eq!(
        e.error,
        LinkingErrorEnum::DifferentTypesDetected(Some(s("union")), ValueType::NumberType, ValueType::StringType)
    );
    assert!(validate_multi_append(vec![list(ValueType::NumberType), ValueType::NumberType]).is_ok());
    assert!(validate_multi_append(vec![list(ValueType::NumberType), ValueType::StringType]).is_err());
    assert!(validate_multi_insert_before(vec![list(ValueType::DateType), ValueType::NumberType, ValueType::DateType]).is_ok());
    let e = validate_multi_insert_before(vec![]).unwrap_err();
    assert_eq!(e.error, LinkingErrorEnum::OtherLinkingError(s("insertBefore expects 3 arguments")));
}

#[test]
fn split_join_and_replace_laws_on_examples() {
    let text = "a--b----c";
    let pieces = split(text, "--");
    assert_eq!(to_display(&pieces, "--"), text);
    assert_eq!(replace(text, "--", "--", None), text);
    assert_eq!(replace(text, "zz", "y", None), text);
    let before = substring_before(text, "--");
    let after = substring_after(text, "--");
    assert_eq!(format!("{}--{}", before, after), text);
    assert_eq!(reverse(&reverse("añb")), "añb");
}

#[test]
fn list_argument_errors_name_the_first_problem() {
    let list = |t: ValueType| ValueType::ListType(Box::new(t));
    let e = validate_multi_concatenate(vec![
        list(ValueType::NumberType),
        list(ValueType::NumberType),
        list(ValueType::StringType),
        ValueType::DateType,
    ])
    .unwrap_err();
    assert_eq!(
        e.error,
        LinkingErrorEnum::DifferentTypesDetected(
            Some("concatenate".to_string()),
            ValueType::NumberType,
            ValueType::StringType
        )
    );
    let e = validate_multi_union(vec![list(ValueType::NumberType), ValueType::DateType]).unwrap_err();
    assert_eq!(
        e.error,
        LinkingErrorEnum::TypesNotCompatible(
            None,
            ValueType::DateType,
            Some(vec![list(ValueType::UndefinedType)])
        )
    );
    let e = validate_multi_append(vec![
        list(ValueType::NumberType),
        ValueType::NumberType,
        ValueType::StringType,
        ValueType::DateType,
    ])
    .unwrap_err();
    assert_eq!(
        e.error,
        LinkingErrorEnum::DifferentTypesDetected(
            Some("append".to_string()),
            ValueType::NumberType,
            ValueType::StringType
        )
    );
    let e = validate_multi_insert_before(vec![
        list(ValueType::NumberType),
        ValueType::StringType,
        ValueType::NumberType,
    ])
    .unwrap_err();
    assert_eq!(
        e.error,
        LinkingErrorEnum::TypesNotCompatible(None, ValueType::StringType, Some(vec![ValueType::NumberType]))
    );
    let e = validate_multi_insert_before(vec![
        list(ValueType::NumberType),
        ValueType::NumberType,
        ValueType::StringType,
    ])
    .unwrap_err();
    assert_eq!(
        e.error,
        LinkingErrorEnum::DifferentTypesDetected(
            Some("insertBefore".to_string()),
            ValueType::NumberType,
            ValueType::StringType
        )
    );
}
