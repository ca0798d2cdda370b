use memgraph_connector::json::{Json, Object};
use memgraph_connector::parse::{document, from_value};

#[test]
fn objects_keep_their_keys_in_order() {
    let mut object = Object::new();
    object.insert("b".to_string(), Json::Bool(true));
    object.insert("c".to_string(), Json::Null);
    object.insert("a".to_string(), Json::Null);
    object.insert("b".to_string(), Json::Bool(false));
    assert_eq!(object.keys(), vec!["a", "b", "c"]);
    assert_eq!(object.get("b"), Some(&Json::Bool(false)));
    assert_eq!(object.get("d"), None);
    assert_eq!(object.clone(), object);
}

#[test]
fn only_objects_have_members_and_only_strings_texts() {
    let json = document(r#"{"a": ["x"]}"#);
    assert_eq!(
        json.get("a"),
        Some(&Json::Array(vec![Json::String("x".to_string())]))
    );
    assert_eq!(json.get("a").unwrap().get("0"), None);
    assert_eq!(json.as_str(), None);
    assert_eq!(Json::string("x").as_str(), Some("x"));
}

#[test]
fn reads_documents() {
    let mut inner = Object::new();
    inner.insert("b".to_string(), Json::Number("-1".to_string()));
    let mut outer = Object::new();
    outer.insert("n".to_string(), Json::Null);
    outer.insert("k".to_string(), Json::Bool(true));
    outer.insert(
        "a".to_string(),
        Json::Array(vec![
            Json::Number("1.5".to_string()),
            Json::String("x".to_string()),
            Json::Object(inner),
        ]),
    );
    assert_eq!(
        document(r#" {"n": null, "k": true, "a": [1.50, "x", {"b": -1}]} "#),
        Json::Object(outer)
    );
}

#[test]
fn texts_that_are_no_documents_read_as_null() {
    assert_eq!(document("{"), Json::Null);
    assert_eq!(document(""), Json::Null);
    assert_eq!(document("null"), Json::Null);
}

#[test]
fn copies_values() {
    let value = serde_json::Value::Array(vec![
        serde_json::Value::Bool(false),
        serde_json::Value::from(7688),
    ]);
    assert_eq!(
        from_value(&value),
        Json::Array(vec![
            Json::Bool(false),
            Json::Number("7688".to_string())
        ])
    );
}
