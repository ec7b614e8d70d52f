use shotly::json::JsonValue;

#[test]
fn lookups() {
    let v = JsonValue::Object(vec![
        ("a".to_string(), JsonValue::Array(vec![JsonValue::Str("x".to_string())])),
        ("b".to_string(), JsonValue::Bool(true)),
    ]);
    assert!(matches!(v.get("b"), Some(JsonValue::Bool(true))));
    assert!(v.get("c").is_none());
    assert!(v.at(0).is_none());
    let a = v.get("a").unwrap();
    assert_eq!(a.at(0).unwrap().as_str().unwrap(), "x");
    assert!(a.at(1).is_none());
    assert!(a.get("a").is_none());
    assert!(JsonValue::Number("1".to_string()).as_str().is_none());
}
