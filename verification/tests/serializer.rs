//! The Literal Serializer's value-arity rule and exact renderings.

use nu_php::literal::{nu_headers, nu_list, nu_map};
use nu_php::multimap::{multi_map, MultiMap};
use nu_php::response::NuRecord;
use nu_php::ServerError;

#[test]
fn empty_list_renders_empty_scalar() {
    let vals: Vec<String> = vec![];
    assert_eq!(nu_list(&vals), "\"\"");
}

#[test]
fn single_value_renders_scalar() {
    let vals = vec!["hello".to_string()];
    assert_eq!(nu_list(&vals), "\"hello\"");
}

#[test]
fn two_values_render_list_in_order() {
    let vals = vec!["1".to_string(), "2".to_string()];
    assert_eq!(nu_list(&vals), "[\"1\",\"2\",]");
}

#[test]
fn three_values_render_list_in_order() {
    let vals = vec!["a".to_string(), "b".to_string(), "c".to_string()];
    assert_eq!(nu_list(&vals), "[\"a\",\"b\",\"c\",]");
}

#[test]
fn map_renders_entries_in_insertion_order() {
    let mut m = MultiMap::new();
    m.add("a".to_string(), "1".to_string());
    m.add("a".to_string(), "2".to_string());
    m.add("b".to_string(), "3".to_string());
    assert_eq!(nu_map(&m), "{\"a\": [\"1\",\"2\",],\"b\": \"3\",}");
}

#[test]
fn absent_field_never_appears() {
    let m = MultiMap::new();
    assert_eq!(nu_map(&m), "{}");
}

#[test]
fn headers_render_like_a_field_map() {
    let mut h = MultiMap::new();
    h.add("Accept".to_string(), "text/html".to_string());
    assert_eq!(nu_headers(&h), "{\"Accept\": \"text/html\",}");
}

#[test]
fn grouping_preserves_repetition_order() {
    let pairs = vec![
        ("k".to_string(), "x".to_string()),
        ("j".to_string(), "y".to_string()),
        ("k".to_string(), "z".to_string()),
    ];
    let m = multi_map(&pairs);
    assert_eq!(m.len(), 2);
    assert_eq!(m.get("k").unwrap(), &vec!["x".to_string(), "z".to_string()]);
    assert_eq!(m.get("j").unwrap(), &vec!["y".to_string()]);
    assert!(m.get("absent").is_none());
}

#[test]
fn record_renders_one_line_per_pair() {
    let pairs = [("k", "v"), ("x", "y")];
    let rec = NuRecord::of(&pairs);
    assert_eq!(rec.render(), "{k: v\nx: y\n}");
}

#[test]
fn error_messages() {
    assert_eq!(ServerError::BadRequest.message(), "400 Bad Request");
    assert_eq!(
        ServerError::InternalServerError.message(),
        "500 Internal Server Error"
    );
}
