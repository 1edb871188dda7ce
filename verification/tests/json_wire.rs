//! Tests of the JSON reader, writer and number handling.

use gemini_rust::json::{JsonNumber, JsonValue};
use gemini_rust::json_text::{parse_json_text, write_json_text};

fn parse(s: &str) -> Option<JsonValue> {
    parse_json_text(s)
}

#[test]
fn parse_literals() {
    assert!(matches!(parse("null"), Some(JsonValue::Null)));
    assert!(matches!(parse("true"), Some(JsonValue::Bool(true))));
    assert!(matches!(parse("false"), Some(JsonValue::Bool(false))));
    assert!(matches!(parse("  null  "), Some(JsonValue::Null)));
}

#[test]
fn parse_numbers_keep_literal_text() {
    match parse("-12.5e3") {
        Some(JsonValue::Number(n)) => assert_eq!(n.text, "-12.5e3"),
        other => panic!("unexpected parse: {:?}", other),
    }
    match parse("0") {
        Some(JsonValue::Number(n)) => assert_eq!(n.text, "0"),
        other => panic!("unexpected parse: {:?}", other),
    }
}

#[test]
fn parse_rejects_leading_zero_and_trailing_garbage() {
    assert!(parse("01").is_none());
    assert!(parse("1 2").is_none());
    assert!(parse("").is_none());
    assert!(parse("   ").is_none());
    assert!(parse("{").is_none());
    assert!(parse("[1,]").is_none());
    assert!(parse("{\"a\":1,}").is_none());
}

#[test]
fn parse_strings_and_escapes() {
    match parse("\"a\\nb\\t\\\"c\\\\d\\/e\"") {
        Some(JsonValue::String(s)) => assert_eq!(s, "a\nb\t\"c\\d/e"),
        other => panic!("unexpected parse: {:?}", other),
    }
    match parse("\"\\u0041\\u00e9\"") {
        Some(JsonValue::String(s)) => assert_eq!(s, "A\u{e9}"),
        other => panic!("unexpected parse: {:?}", other),
    }
    // a surrogate pair denotes one character beyond the basic plane
    match parse("\"\\uD83D\\uDE00\"") {
        Some(JsonValue::String(s)) => assert_eq!(s, "\u{1F600}"),
        other => panic!("unexpected parse: {:?}", other),
    }
    // a lone surrogate denotes nothing
    assert!(parse("\"\\uD83D\"").is_none());
    // an unescaped control character denotes nothing
    assert!(parse("\"a\nb\"").is_none());
    // a bad escape denotes nothing
    assert!(parse("\"\\x\"").is_none());
}

#[test]
fn parse_structures() {
    match parse(" { \"a\" : [ 1 , true , \"x\" ] , \"b\" : { } } ") {
        Some(JsonValue::Object(pairs)) => {
            assert_eq!(pairs.len(), 2);
            assert_eq!(pairs[0].0, "a");
            match &pairs[0].1 {
                JsonValue::Array(elems) => {
                    assert_eq!(elems.len(), 3);
                    assert!(matches!(&elems[0], JsonValue::Number(n) if n.text == "1"));
                    assert!(matches!(&elems[1], JsonValue::Bool(true)));
                    assert!(matches!(&elems[2], JsonValue::String(s) if s == "x"));
                }
                other => panic!("unexpected element: {:?}", other),
            }
            assert_eq!(pairs[1].0, "b");
            assert!(matches!(&pairs[1].1, JsonValue::Object(inner) if inner.is_empty()));
        }
        other => panic!("unexpected parse: {:?}", other),
    }
}

#[test]
fn write_compact_form() {
    let doc = JsonValue::Object(vec![
        ("a".to_string(), JsonValue::Array(vec![
            JsonValue::Number(JsonNumber { text: "1".to_string() }),
            JsonValue::Bool(false),
            JsonValue::Null,
        ])),
        ("b".to_string(), JsonValue::String("x\"y\\z\n".to_string())),
    ]);
    assert_eq!(
        write_json_text(&doc),
        "{\"a\":[1,false,null],\"b\":\"x\\\"y\\\\z\\n\"}"
    );
}

#[test]
fn write_then_parse_round_trips() {
    let text = "{\"k\":[\"\\u0041 b\",-3.5,{\"n\":null}],\"m\":true}";
    let doc = parse(text).expect("well-formed document");
    let written = write_json_text(&doc);
    let again = parse(&written).expect("written text parses");
    assert_eq!(write_json_text(&again), written);
}

#[test]
fn number_from_i64_writes_decimal_text() {
    assert_eq!(JsonNumber::from_i64(0).text, "0");
    assert_eq!(JsonNumber::from_i64(1024).text, "1024");
    assert_eq!(JsonNumber::from_i64(-42).text, "-42");
    assert_eq!(
        JsonNumber::from_i64(i64::MIN).text,
        "-9223372036854775808"
    );
}

#[test]
fn number_as_i64_reads_integers_only() {
    assert_eq!(JsonNumber { text: "40".to_string() }.as_i64(), Some(40));
    assert_eq!(JsonNumber { text: "-7".to_string() }.as_i64(), Some(-7));
    assert_eq!(JsonNumber { text: "007".to_string() }.as_i64(), Some(7));
    assert_eq!(JsonNumber { text: "-0".to_string() }.as_i64(), Some(0));
    assert_eq!(JsonNumber { text: "1.5".to_string() }.as_i64(), None);
    assert_eq!(JsonNumber { text: "1e2".to_string() }.as_i64(), None);
    assert_eq!(JsonNumber { text: "".to_string() }.as_i64(), None);
    assert_eq!(JsonNumber { text: "-".to_string() }.as_i64(), None);
    assert_eq!(
        JsonNumber { text: "9223372036854775807".to_string() }.as_i64(),
        Some(i64::MAX)
    );
    assert_eq!(
        JsonNumber { text: "9223372036854775808".to_string() }.as_i64(),
        None
    );
    assert_eq!(
        JsonNumber { text: "-9223372036854775808".to_string() }.as_i64(),
        Some(i64::MIN)
    );
    assert_eq!(
        JsonNumber { text: "-9223372036854775809".to_string() }.as_i64(),
        None
    );
    assert_eq!(
        JsonNumber { text: "10000000000000000000000001".to_string() }.as_i64(),
        None
    );
}

#[test]
fn object_lookup_takes_last_binding() {
    match parse("{\"a\":1,\"a\":2}") {
        Some(v @ JsonValue::Object(_)) => {
            let call = gemini_rust::tools::FunctionCall::new("f", v);
            match call.get_i64("a") {
                Ok(x) => assert_eq!(x, 2),
                Err(e) => panic!("unexpected error: {}", e.message()),
            }
        }
        other => panic!("unexpected parse: {:?}", other),
    }
}

#[test]
fn parse_handles_whitespace_everywhere() {
    assert!(parse("\t[\r\n 1 ,\n 2 ]\n").is_some());
    assert!(parse("{ }").is_some());
    assert!(parse("[ ]").is_some());
}

#[test]
fn parse_handles_deep_nesting() {
    let mut s = String::new();
    for _ in 0..64 {
        s.push('[');
    }
    s.push_str("null");
    for _ in 0..64 {
        s.push(']');
    }
    assert!(parse(&s).is_some());
    // unbalanced nesting denotes nothing
    s.push(']');
    assert!(parse(&s).is_none());
}

#[test]
fn write_escapes_control_characters() {
    let doc = JsonValue::String("\u{1}\u{8}\u{c}\r".to_string());
    assert_eq!(write_json_text(&doc), "\"\\u0001\\b\\f\\r\"");
}
