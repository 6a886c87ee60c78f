//! The JSON reader on concrete bodies.
use halkara::json::{obj_get, parse_json, Json};

fn parse(bytes: &[u8]) -> Option<Json> {
    parse_json(&bytes.to_vec())
}

#[test]
fn parses_scalars() {
    assert!(matches!(parse(b"null"), Some(Json::Null)));
    assert!(matches!(parse(b"true"), Some(Json::Bool(true))));
    assert!(matches!(parse(b"false"), Some(Json::Bool(false))));
    assert!(matches!(parse(b"42"), Some(Json::Int(42))));
    assert!(matches!(parse(b"0"), Some(Json::Int(0))));
    assert!(matches!(parse(b"  42  "), Some(Json::Int(42))));
}

#[test]
fn non_integer_numbers_are_consumed_without_value() {
    assert!(matches!(parse(b"-42"), Some(Json::NumOther)));
    assert!(matches!(parse(b"3.25"), Some(Json::NumOther)));
    assert!(matches!(parse(b"1e10"), Some(Json::NumOther)));
    assert!(matches!(parse(b"2E-3"), Some(Json::NumOther)));
    // More than 19 digits no longer fits the carried integer.
    assert!(matches!(
        parse(b"99999999999999999999"),
        Some(Json::NumOther)
    ));
    // 19 digits still does.
    assert!(matches!(
        parse(b"9999999999999999999"),
        Some(Json::Int(9999999999999999999))
    ));
}

#[test]
fn parses_strings_and_escapes() {
    match parse(b"\"hello\"") {
        Some(Json::Str(s)) => assert_eq!(s, b"hello".to_vec()),
        _ => panic!("expected a string"),
    }
    match parse(b"\"a\\nb\\t\\\"c\\\\\"") {
        Some(Json::Str(s)) => assert_eq!(s, b"a\nb\t\"c\\".to_vec()),
        _ => panic!("expected a string"),
    }
    // \u escape in the ASCII range.
    match parse(b"\"\\u0041\"") {
        Some(Json::Str(s)) => assert_eq!(s, b"A".to_vec()),
        _ => panic!("expected a string"),
    }
    // \u escape above ASCII: e-acute, two UTF-8 bytes.
    match parse(b"\"Caf\\u00e9\"") {
        Some(Json::Str(s)) => assert_eq!(s, "Caf\u{e9}".as_bytes().to_vec()),
        _ => panic!("expected a string"),
    }
    // A surrogate pair: U+1D11E, four UTF-8 bytes.
    match parse(b"\"\\uD834\\uDD1E\"") {
        Some(Json::Str(s)) => assert_eq!(s, "\u{1D11E}".as_bytes().to_vec()),
        _ => panic!("expected a string"),
    }
    // Raw UTF-8 passes through untouched.
    match parse("\"Caf\u{e9}\"".as_bytes()) {
        Some(Json::Str(s)) => assert_eq!(s, "Caf\u{e9}".as_bytes().to_vec()),
        _ => panic!("expected a string"),
    }
}

#[test]
fn rejects_malformed_bodies() {
    assert!(parse(b"").is_none());
    assert!(parse(b"nul").is_none());
    assert!(parse(b"{").is_none());
    assert!(parse(b"[1,]").is_none());
    assert!(parse(b"\"unterminated").is_none());
    assert!(parse(b"[1] trailing").is_none());
    assert!(parse(b"{\"a\" 1}").is_none());
    assert!(parse(b"\"lone\\uD834 surrogate\"").is_none());
    assert!(parse(b"1.").is_none());
    assert!(parse(b"1e").is_none());
}

#[test]
fn parses_arrays_and_objects() {
    match parse(b"[1, 2, 3]") {
        Some(Json::Arr(items)) => {
            assert_eq!(items.len(), 3);
            assert!(matches!(items[0], Json::Int(1)));
            assert!(matches!(items[2], Json::Int(3)));
        }
        _ => panic!("expected an array"),
    }
    assert!(matches!(parse(b"[]"), Some(Json::Arr(v)) if v.is_empty()));
    assert!(matches!(parse(b"{}"), Some(Json::Obj(m)) if m.is_empty()));
    let body = b"{\"data\": {\"id\": \"D\", \"n\": [true, null]}, \"x\": 1}";
    let parsed = parse(body).expect("object parses");
    let data = obj_get(&parsed, b"data").expect("data member");
    match obj_get(data, b"id") {
        Some(Json::Str(s)) => assert_eq!(s, &b"D".to_vec()),
        _ => panic!("expected the id string"),
    }
    assert!(obj_get(&parsed, b"missing").is_none());
    match obj_get(&parsed, b"x") {
        Some(Json::Int(1)) => {}
        _ => panic!("expected x"),
    }
}

#[test]
fn deep_nesting_parses() {
    let body = b"[[[[[1]]]]]";
    let mut v = parse(body).expect("nested array parses");
    for _ in 0..5 {
        v = match v {
            Json::Arr(mut items) => {
                assert_eq!(items.len(), 1);
                items.remove(0)
            }
            _ => panic!("expected an array layer"),
        };
    }
    assert!(matches!(v, Json::Int(1)));
}
