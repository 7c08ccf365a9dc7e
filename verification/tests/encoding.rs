use problemdetails::response::encode_object;
use serde_json::Value;
use std::collections::BTreeMap;

#[test]
fn no_members_is_the_empty_object() {
    assert_eq!(encode_object(&Vec::new()), "{}");
}

#[test]
fn members_are_written_in_the_order_given() {
    let fields = vec![
        ("b".to_string(), Value::from(1)),
        ("a".to_string(), Value::from("x")),
        ("c".to_string(), Value::Null),
    ];
    assert_eq!(encode_object(&fields), r#"{"b":1,"a":"x","c":null}"#);
}

#[test]
fn ascending_members_are_written_as_a_map_is() {
    let mut model = BTreeMap::new();
    model.insert("title".to_string(), Value::from("Tab\there"));
    model.insert("count".to_string(), Value::from(u64::MAX));
    model.insert("list".to_string(), Value::from(vec!["a", "b"]));
    model.insert("back\\slash".to_string(), Value::from(false));
    model.insert("\u{1}".to_string(), Value::from(0.25));
    let fields: Vec<(String, Value)> = model.iter().map(|(k, v)| (k.clone(), v.clone())).collect();
    assert_eq!(encode_object(&fields), serde_json::to_string(&model).unwrap());
}
