use jx3_store::json::json_parse;
use jx3_store::json::JsonValue;
use jx3_store::text::cast_text_i64;
use jx3_store::text::lex_lt;
use jx3_store::text::parse_i64;
use jx3_store::text::str_eq;
use jx3_store::text::u64_to_string;

#[test]
fn decimal_rendering() {
    assert_eq!(u64_to_string(0), "0");
    assert_eq!(u64_to_string(7), "7");
    assert_eq!(u64_to_string(25), "25");
    assert_eq!(u64_to_string(18446744073709551615), "18446744073709551615");
}

#[test]
fn parse_decimal_exact() {
    assert_eq!(parse_i64(&"123".to_string()), Some(123));
    assert_eq!(parse_i64(&"+42".to_string()), Some(42));
    assert_eq!(parse_i64(&"-17".to_string()), Some(-17));
    assert_eq!(parse_i64(&"0".to_string()), Some(0));
    assert_eq!(parse_i64(&"9223372036854775807".to_string()), Some(i64::MAX));
    assert_eq!(parse_i64(&"-9223372036854775808".to_string()), Some(i64::MIN));
}

#[test]
fn parse_decimal_rejects() {
    assert_eq!(parse_i64(&"".to_string()), None);
    assert_eq!(parse_i64(&"-".to_string()), None);
    assert_eq!(parse_i64(&"12a".to_string()), None);
    assert_eq!(parse_i64(&" 12".to_string()), None);
    assert_eq!(parse_i64(&"9223372036854775808".to_string()), None);
    assert_eq!(parse_i64(&"-9223372036854775809".to_string()), None);
}

#[test]
fn cast_takes_leading_digits() {
    assert_eq!(cast_text_i64(&"2024-05-01".to_string()), 2024);
    assert_eq!(cast_text_i64(&"  42abc".to_string()), 42, "leading whitespace is skipped");
    assert_eq!(cast_text_i64(&"\t-3x".to_string()), -3);
    assert_eq!(cast_text_i64(&"a 42".to_string()), 0);
    assert_eq!(cast_text_i64(&"-17x".to_string()), -17);
    assert_eq!(cast_text_i64(&"abc".to_string()), 0);
    assert_eq!(cast_text_i64(&"".to_string()), 0);
    assert_eq!(cast_text_i64(&"99999999999999999999999".to_string()), i64::MAX);
}

#[test]
fn lexicographic_order() {
    assert!(lex_lt(&"2024-01-02".to_string(), &"2024-01-10".to_string()));
    assert!(!lex_lt(&"2024-01-10".to_string(), &"2024-01-02".to_string()));
    assert!(lex_lt(&"".to_string(), &"a".to_string()));
    assert!(!lex_lt(&"abc".to_string(), &"abc".to_string()));
    assert!(lex_lt(&"ab".to_string(), &"abc".to_string()));
}

#[test]
fn string_equality() {
    assert!(str_eq("abc", "abc"));
    assert!(!str_eq("abc", "abd"));
    assert!(!str_eq("abc", "ab"));
    assert!(str_eq("", ""));
}

#[test]
fn json_field_lookup_with_fallbacks() {
    let v = json_parse("{\"accountName\":\"new\",\"username\":\"old\",\"hidden\":true}").unwrap();
    assert_eq!(v.get_str_or("accountName", ""), "new");
    assert_eq!(v.get_str_or("username", ""), "old");
    assert_eq!(v.get_str_or("missing", "fallback"), "fallback");
    assert!(v.get_bool_or("hidden", false));
    assert!(!v.get_bool_or("absent", false));
}

#[test]
fn json_score_from_number_or_text() {
    let v = json_parse("{\"a\":5000,\"b\":\"6000\",\"c\":\"bad\",\"d\":true}").unwrap();
    assert_eq!(v.get_int_or_text_int("a"), Some(5000));
    assert_eq!(v.get_int_or_text_int("b"), Some(6000));
    assert_eq!(v.get_int_or_text_int("c"), None);
    assert_eq!(v.get_int_or_text_int("d"), None);
    assert_eq!(v.get_int_or_text_int("e"), None);
}

#[test]
fn json_parse_failures() {
    assert!(json_parse("not json").is_none());
    assert!(json_parse("{\"unterminated\":").is_none());
    let arr = json_parse("[1,\"two\",null]").unwrap();
    match arr {
        JsonValue::Arr(items) => assert_eq!(items.len(), 3),
        _ => panic!("expected an array"),
    }
}
