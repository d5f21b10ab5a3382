//! AVM1 value conversions that do not depend on floating point.

use ruffle_core::avm1::{hex_literal_value, string_lt, type_of, PrimitiveType};

#[test]
fn strings_compare_by_bytes() {
    assert!(string_lt("a", "b"));
    assert!(!string_lt("b", "a"));
    assert!(string_lt("ab", "abc"));
    assert!(!string_lt("abc", "abc"));
    assert!(string_lt("Z", "a"));
    assert!(string_lt("", "a"));
    assert!(!string_lt("é", "z"));
}

#[test]
fn hex_literals_wrap_to_32_bits() {
    assert_eq!(hex_literal_value("ff"), Some(255));
    assert_eq!(hex_literal_value("FF"), Some(255));
    assert_eq!(hex_literal_value("FFFFFFFF"), Some(-1));
    assert_eq!(hex_literal_value("123456789"), Some(0x23456789));
    assert_eq!(hex_literal_value(""), Some(0));
    assert_eq!(hex_literal_value("1g"), None);
}

#[test]
fn typeof_names() {
    assert_eq!(type_of(PrimitiveType::Undefined), "undefined");
    assert_eq!(type_of(PrimitiveType::Bool), "boolean");
    assert_eq!(type_of(PrimitiveType::Number), "number");
    assert_eq!(type_of(PrimitiveType::String), "string");
    assert_eq!(type_of(PrimitiveType::Null), "null");
}
