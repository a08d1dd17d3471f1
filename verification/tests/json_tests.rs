use front_chat::content::parse_json_data;
use front_chat::json::{object_get, JsonValue};

#[test]
fn member_lookup_takes_the_first_match() {
    let fields = vec![
        ("a".to_string(), JsonValue::Bool(true)),
        ("b".to_string(), JsonValue::Str("x".into())),
        ("a".to_string(), JsonValue::Null),
    ];
    assert!(matches!(object_get(&fields, "a"), Some(JsonValue::Bool(true))));
    assert!(object_get(&fields, "c").is_none());
    let v = JsonValue::Object(fields);
    assert_eq!(v.get("b").and_then(|m| m.as_str()).map(|s| s.as_str()), Some("x"));
    assert_eq!(v.get("a").and_then(|m| m.as_bool()), Some(true));
    assert!(JsonValue::Array(vec![]).get("a").is_none());
}

#[test]
fn accessors_read_only_their_own_kind() {
    let v = JsonValue::Array(vec![JsonValue::Null]);
    assert_eq!(v.as_array().map(|a| a.len()), Some(1));
    assert!(v.as_object().is_none());
    assert!(v.as_str().is_none());
    assert!(v.as_bool().is_none());
    let o = JsonValue::Object(vec![]);
    assert_eq!(o.as_object().map(|f| f.len()), Some(0));
}

#[test]
fn json_bytes_must_be_utf8_and_json() {
    let err = parse_json_data(&[0xc3]).unwrap_err();
    assert!(err.starts_with("Invalid UTF-8 in JSON data: "), "{}", err);
    let err = parse_json_data(b"{").unwrap_err();
    assert!(err.starts_with("Invalid JSON: "), "{}", err);
    match parse_json_data(br#"{"n": 1.5, "k": [true, null]}"#).unwrap() {
        JsonValue::Object(fields) => {
            assert_eq!(fields.len(), 2);
            assert_eq!(fields[0].0, "k");
            assert!(matches!(&fields[1], (k, JsonValue::Number(n)) if k == "n" && n == "1.5"));
        }
        other => panic!("unexpected {:?}", other),
    }
}
