use grafbase::json::{parse_json, JsonValue};

#[test]
fn parse_json_nested() {
    let v = parse_json(r#"{"a":[1,"x",null,true],"b":{"c":-2.5}}"#).unwrap();
    match v.get("a") {
        Some(JsonValue::Array(items)) => {
            assert_eq!(items.len(), 4);
            assert!(matches!(&items[0], JsonValue::Number(n) if n == "1"));
            assert!(matches!(&items[1], JsonValue::String(s) if s == "x"));
            assert!(matches!(items[2], JsonValue::Null));
            assert!(matches!(items[3], JsonValue::Bool(true)));
        }
        other => panic!("unexpected {other:?}"),
    }
    match v.get("b").and_then(|b| b.get("c")) {
        Some(JsonValue::Number(n)) => assert_eq!(n, "-2.5"),
        other => panic!("unexpected {other:?}"),
    }
    assert!(parse_json("").is_none());
    assert!(parse_json("{\"a\":").is_none());
    assert!(parse_json("[1,]").is_none());
}

#[test]
fn json_text_round_trip() {
    let v = JsonValue::Object(vec![
        ("k".to_string(), JsonValue::Array(vec![JsonValue::Number("3".to_string()), JsonValue::Null])),
        ("s".to_string(), JsonValue::String("a\"b".to_string())),
    ]);
    let text = v.to_json_text().unwrap();
    assert_eq!(text, r#"{"k":[3,null],"s":"a\"b"}"#);
    let back = parse_json(&text).unwrap();
    assert_eq!(back.to_json_text().unwrap(), text);
    assert!(JsonValue::Number("not a number".to_string()).to_json_text().is_none());
}
