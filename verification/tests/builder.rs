use http::StatusCode;
use problemdetails::problem::{new, Problem};
use serde_json::Value;

fn names(problem: &Problem) -> Vec<String> {
    let mut found = Vec::new();
    for entry in problem.entries() {
        found.push(entry.0.clone());
    }
    found
}

#[test]
fn new_problem_has_empty_body() {
    let problem = new(StatusCode::IM_A_TEAPOT);
    assert_eq!(problem.status_code(), StatusCode::IM_A_TEAPOT);
    assert!(problem.is_empty());
    assert_eq!(problem.len(), 0);
    assert!(problem.entries().is_empty());
    assert_eq!(problem.get("title"), None);
}

#[test]
fn from_status_code_is_new() {
    let problem = Problem::from(StatusCode::GONE);
    assert_eq!(problem.status_code(), StatusCode::GONE);
    assert!(problem.is_empty());
    let other: Problem = StatusCode::GONE.into();
    assert_eq!(other.status_code(), StatusCode::GONE);
    assert!(other.is_empty());
}

#[test]
fn convenience_members_are_plain_entries() {
    let problem = new(StatusCode::FORBIDDEN)
        .with_type("t")
        .with_title("ti")
        .with_detail("d")
        .with_instance("i");
    assert_eq!(problem.len(), 4);
    assert!(!problem.is_empty());
    assert_eq!(problem.get("type"), Some(&Value::String("t".to_string())));
    assert_eq!(problem.get("title"), Some(&Value::String("ti".to_string())));
    assert_eq!(problem.get("detail"), Some(&Value::String("d".to_string())));
    assert_eq!(problem.get("instance"), Some(&Value::String("i".to_string())));
    assert_eq!(problem.get("other"), None);
    assert_eq!(names(&problem), vec!["detail", "instance", "title", "type"]);
}

#[test]
fn with_value_twice_is_with_value_once() {
    let once = new(StatusCode::BAD_REQUEST).with_value("k", Value::from(1));
    let twice = new(StatusCode::BAD_REQUEST)
        .with_value("k", Value::from(1))
        .with_value("k", Value::from(1));
    assert_eq!(once.entries(), twice.entries());
    assert_eq!(twice.len(), 1);
    assert_eq!(once.into_response().body, twice.into_response().body);
}

#[test]
fn last_write_wins() {
    let problem = new(StatusCode::BAD_REQUEST)
        .with_value("k", Value::from("first"))
        .with_value("other", Value::from(true))
        .with_value("k", Value::from("second"));
    assert_eq!(problem.get("k"), Some(&Value::from("second")));
    assert_eq!(problem.len(), 2);
    assert_eq!(problem.into_response().body, r#"{"k":"second","other":true}"#);
}

#[test]
fn raw_value_overwrites_reserved_member() {
    let problem = new(StatusCode::BAD_REQUEST).with_type("about:blank").with_value("type", Value::from(7));
    assert_eq!(problem.get("type"), Some(&Value::from(7)));
    assert_eq!(problem.len(), 1);
    let back = problem.with_type("again");
    assert_eq!(back.get("type"), Some(&Value::from("again")));
}

#[test]
fn title_and_detail_in_either_order() {
    let one = new(StatusCode::BAD_REQUEST).with_title("a").with_detail("b");
    let other = new(StatusCode::BAD_REQUEST).with_detail("b").with_title("a");
    assert_eq!(one.entries(), other.entries());
    assert_eq!(one.into_response().body, r#"{"detail":"b","title":"a"}"#);
    assert_eq!(other.into_response().body, r#"{"detail":"b","title":"a"}"#);
}

#[test]
fn entries_are_kept_in_ascending_order_whatever_the_order_of_the_calls() {
    let keys = ["m", "b", "z", "a", "ma", "", "B", "mb", "é", "zz", "a"];
    let mut problem = new(StatusCode::BAD_REQUEST);
    let mut model = std::collections::BTreeMap::new();
    for (n, key) in keys.iter().enumerate() {
        problem = problem.with_value(key, Value::from(n));
        model.insert(key.to_string(), Value::from(n));
        let listed: Vec<(String, Value)> = model.iter().map(|(k, v)| (k.clone(), v.clone())).collect();
        assert_eq!(problem.entries(), &listed);
        assert_eq!(problem.len(), model.len());
    }
    assert_eq!(names(&problem), vec!["", "B", "a", "b", "m", "ma", "mb", "z", "zz", "é"]);
    assert_eq!(problem.get("a"), Some(&Value::from(10)));
    assert_eq!(problem.into_response().body, serde_json::to_string(&model).unwrap());
}

#[test]
fn nested_value_is_replaced_whole() {
    let mut first = serde_json::Map::new();
    first.insert("x".to_string(), Value::from(1));
    first.insert("y".to_string(), Value::from(2));
    let mut second = serde_json::Map::new();
    second.insert("z".to_string(), Value::from(3));
    let problem = new(StatusCode::BAD_REQUEST)
        .with_value("nested", Value::Object(first))
        .with_value("nested", Value::Object(second));
    assert_eq!(problem.into_response().body, r#"{"nested":{"z":3}}"#);
}

#[test]
fn clone_is_equal_and_independent() {
    let first =
        new(StatusCode::FORBIDDEN).with_title("kept").with_value("n", Value::from(vec![1, 2]));
    let copy = first.clone();
    assert_eq!(copy.status_code(), StatusCode::FORBIDDEN);
    assert_eq!(copy.entries(), first.entries());
    let changed = copy.with_title("changed");
    assert_eq!(first.get("title"), Some(&Value::from("kept")));
    assert_eq!(changed.get("title"), Some(&Value::from("changed")));
    assert_eq!(first.get("n"), Some(&Value::from(vec![1, 2])));
}
