use reqforge::json::{json_value_from_serde, parse_json_text};
use reqforge::json_value::JsonValue;
use reqforge::request_json::parse_request_text;

#[test]
fn json_text_parses_into_the_library_value() {
    let v = parse_json_text(r#"{"a": [1, 2.5, true, null], "b": "x"}"#).unwrap();
    match &v {
        JsonValue::Object(fields) => {
            assert_eq!(fields.len(), 2);
            assert_eq!(fields[0].0, "a");
            match &fields[0].1 {
                JsonValue::Array(items) => {
                    assert_eq!(items.len(), 4);
                    assert!(matches!(&items[0], JsonValue::Number(n) if n == "1"));
                    assert!(matches!(&items[1], JsonValue::Number(n) if n == "2.5"));
                    assert!(matches!(items[2], JsonValue::Bool(true)));
                    assert!(matches!(items[3], JsonValue::Null));
                }
                _ => panic!("expected an array"),
            }
            assert_eq!(fields[1].0, "b");
            assert!(matches!(&fields[1].1, JsonValue::Str(s) if s == "x"));
        }
        _ => panic!("expected an object"),
    }
    let e = parse_json_text("{\"a\": }").unwrap_err();
    assert!(e.contains("line 1"));
}

#[test]
fn serde_values_convert_one_for_one() {
    let sv = serde_json::Value::Array(vec![
        serde_json::Value::String("s".to_string()),
        serde_json::Value::Number(serde_json::Number::from(-7)),
    ]);
    match json_value_from_serde(&sv) {
        JsonValue::Array(items) => {
            assert!(matches!(&items[0], JsonValue::Str(s) if s == "s"));
            assert!(matches!(&items[1], JsonValue::Number(n) if n == "-7"));
        }
        _ => panic!("expected an array"),
    }
}

#[test]
fn request_text_is_parsed_then_read() {
    let r = parse_request_text(r#"{"name": "Ping", "method": "GET", "url": "https://e.com"}"#).unwrap();
    assert_eq!(r.name, "Ping");
    assert_eq!(r.url, "https://e.com");
    let e = parse_request_text("nope").unwrap_err();
    assert!(e.starts_with("Failed to parse JSON: "));
    let e = parse_request_text(r#"{"method": "GET"}"#).unwrap_err();
    assert_eq!(e, "Missing 'name' field");
}
