use epoll_router::json::Value;

fn text(s: &str) -> Value {
    Value::Text(s.to_string())
}

fn outside(value: &Value) -> serde_json::Value {
    match value {
        Value::Null => serde_json::Value::Null,
        Value::Bool(b) => serde_json::Value::Bool(*b),
        Value::Number(digits) => serde_json::from_str(digits).unwrap(),
        Value::Text(s) => serde_json::Value::String(s.clone()),
        Value::Array(items) => serde_json::Value::Array(items.iter().map(outside).collect()),
        Value::Object(members) => serde_json::Value::Object(
            members.iter().map(|(key, value)| (key.clone(), outside(value))).collect(),
        ),
    }
}

fn sample() -> Value {
    Value::Object(vec![
        ("a \"key\"".to_string(), Value::Array(vec![])),
        ("b".to_string(), Value::Array(vec![Value::Null, Value::Bool(true), Value::Bool(false)])),
        ("c".to_string(), Value::Object(vec![])),
        (
            "d".to_string(),
            Value::Array(vec![Value::Number("-12".to_string()), Value::Number("2.5".to_string())]),
        ),
        ("e".to_string(), Value::Object(vec![("\n".to_string(), text("\u{e9}\u{1f600}/"))])),
    ])
}

#[test]
fn compact_text_is_exact() {
    assert_eq!(
        sample().to_text(),
        "{\"a \\\"key\\\"\":[],\"b\":[null,true,false],\"c\":{},\"d\":[-12,2.5],\"e\":{\"\\n\":\"\u{e9}\u{1f600}/\"}}"
    );
    assert_eq!(sample().to_text(), outside(&sample()).to_string());
}

#[test]
fn strings_are_escaped() {
    assert_eq!(
        text("a\"b\\c\u{8}\t\n\u{c}\r\u{1}\u{1f}\u{7f}d").to_text(),
        "\"a\\\"b\\\\c\\b\\t\\n\\f\\r\\u0001\\u001f\u{7f}d\""
    );
    for code in 0..0x300u32 {
        if let Some(c) = char::from_u32(code) {
            let value = text(&format!("x{c}y"));
            assert_eq!(value.to_text(), outside(&value).to_string());
        }
    }
}

#[test]
fn members_are_found_by_key() {
    let value = Value::Object(vec![
        ("a".to_string(), text("first")),
        ("b".to_string(), Value::Bool(true)),
        ("a".to_string(), text("second")),
    ]);
    assert_eq!(value.get("a").unwrap().as_str(), Some("first"));
    assert!(matches!(value.get("b"), Some(Value::Bool(true))));
    assert_eq!(value.get("b").unwrap().as_str(), None);
    assert!(value.get("c").is_none());
    assert!(text("a").get("a").is_none());
}

#[test]
fn a_document_gives_ascending_keys_and_plain_numbers() {
    let text = "{\"b\":1e2,\"a\":[-0.5,12345678901234567890],\"b\":2}";
    let held: serde_json::Value = serde_json::from_str(text).unwrap();
    assert_eq!(held.to_string(), "{\"a\":[-0.5,12345678901234567890],\"b\":2}");
    let value = Value::Object(vec![
        (
            "a".to_string(),
            Value::Array(vec![
                Value::Number("-0.5".to_string()),
                Value::Number("12345678901234567890".to_string()),
            ]),
        ),
        ("b".to_string(), Value::Number("2".to_string())),
    ]);
    assert_eq!(value.to_text(), held.to_string());
    assert!(matches!(value.get("b"), Some(Value::Number(digits)) if digits == "2"));
}

#[test]
fn a_clone_has_the_same_text() {
    assert_eq!(sample().clone().to_text(), sample().to_text());
}
