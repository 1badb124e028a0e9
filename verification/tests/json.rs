use npm_resource::json::JsonValue;

fn s(text: &str) -> JsonValue {
    JsonValue::Str(String::from(text))
}

#[test]
fn get_finds_object_fields_only() {
    let v = JsonValue::Object(vec![(String::from("a"), s("1")), (String::from("b"), JsonValue::Null)]);
    assert_eq!(v.get("a").and_then(|x| x.as_str()), Some("1"));
    assert!(v.get("c").is_none());
    assert!(s("text").get("a").is_none());
    assert!(JsonValue::Array(vec![s("a")]).get("a").is_none());
    assert_eq!(s("text").as_str(), Some("text"));
    assert!(JsonValue::Number(String::from("1")).as_str().is_none());
}

#[test]
fn insert_then_get() {
    let mut v = JsonValue::Object(vec![(String::from("a"), s("1"))]);
    v.insert(String::from("a"), s("2"));
    v.insert(String::from("b"), s("3"));
    assert_eq!(v.get("a").and_then(|x| x.as_str()), Some("2"));
    assert_eq!(v.get("b").and_then(|x| x.as_str()), Some("3"));
    match &v {
        JsonValue::Object(entries) => assert_eq!(entries.len(), 2),
        _ => panic!("expected an object"),
    }
}

#[test]
fn deep_clone_copies_nested_values() {
    let v = JsonValue::Object(vec![(
        String::from("list"),
        JsonValue::Array(vec![s("x"), JsonValue::Bool(true), JsonValue::Number(String::from("2.5"))]),
    )]);
    let c = v.deep_clone();
    match (c.get("list"), v.get("list")) {
        (Some(JsonValue::Array(a)), Some(JsonValue::Array(b))) => {
            assert_eq!(a.len(), b.len());
            assert_eq!(a[0].as_str(), Some("x"));
            assert!(matches!(a[1], JsonValue::Bool(true)));
            assert!(matches!(&a[2], JsonValue::Number(n) if n == "2.5"));
        }
        _ => panic!("expected arrays"),
    }
}
