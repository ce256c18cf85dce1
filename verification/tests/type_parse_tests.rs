use edge_rules::portable::{classify_entry, parse_angle_type, PortableKind};
use edge_rules::type_parse::parse_type;
use edge_rules::types::{ComplexTypeRef, ValueType};

#[test]
fn declared_types_are_read() {
    assert_eq!(parse_type("number"), ComplexTypeRef::Primitive(ValueType::NumberType));
    assert_eq!(parse_type("datetime"), ComplexTypeRef::Primitive(ValueType::DateTimeType));
    assert_eq!(parse_type("duration"), ComplexTypeRef::Primitive(ValueType::DurationType));
    assert_eq!(parse_type("Customer"), ComplexTypeRef::Alias("Customer".to_string()));
    assert_eq!(
        parse_type("string[]"),
        ComplexTypeRef::List(Box::new(ComplexTypeRef::Primitive(ValueType::StringType)))
    );
    assert_eq!(
        parse_type("Customer[][]"),
        ComplexTypeRef::List(Box::new(ComplexTypeRef::List(Box::new(ComplexTypeRef::Alias(
            "Customer".to_string()
        )))))
    );
    assert_eq!(
        parse_type("[]"),
        ComplexTypeRef::List(Box::new(ComplexTypeRef::Alias(String::new())))
    );
    assert_eq!(parse_type("date []"), ComplexTypeRef::List(Box::new(ComplexTypeRef::Alias("date ".to_string()))));
    assert_eq!(parse_type("a[]b"), ComplexTypeRef::Alias("a[]b".to_string()));
}

#[test]
fn angle_type_references() {
    assert_eq!(
        parse_angle_type(" <number[]> ").unwrap(),
        ComplexTypeRef::List(Box::new(ComplexTypeRef::Primitive(ValueType::NumberType)))
    );
    assert_eq!(
        parse_angle_type("< Customer >").unwrap(),
        ComplexTypeRef::Alias("Customer".to_string())
    );
    assert_eq!(
        parse_angle_type("number").unwrap_err().into_message(),
        "Type reference 'number' must use <...> notation"
    );
    assert_eq!(
        parse_angle_type("<").unwrap_err().into_message(),
        "Type reference '<' must use <...> notation"
    );
}

#[test]
fn portable_entries_are_classified() {
    assert_eq!(classify_entry(true, Some("function")), PortableKind::Function);
    assert_eq!(classify_entry(true, Some("type")), PortableKind::Type);
    assert_eq!(classify_entry(true, Some("other")), PortableKind::Context);
    assert_eq!(classify_entry(true, None), PortableKind::Context);
    assert_eq!(classify_entry(false, Some("function")), PortableKind::Expression);
}
