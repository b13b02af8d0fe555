use ornithe_installer::json::{merge, JsonValue};

fn s(x: &str) -> JsonValue {
    JsonValue::Str(x.to_string())
}

fn obj(pairs: Vec<(&str, JsonValue)>) -> JsonValue {
    JsonValue::Object(pairs.into_iter().map(|(k, v)| (k.to_string(), v)).collect())
}

fn sample_base() -> JsonValue {
    obj(vec![("a", s("1")), ("b", obj(vec![("x", s("base"))])), ("l", JsonValue::Array(vec![s("one")]))])
}

fn sample_overlay() -> JsonValue {
    obj(vec![
        ("a", s("2")),
        ("b", obj(vec![("x", s("over")), ("y", s("new"))])),
        ("c", s("added")),
        ("l", JsonValue::Array(vec![s("two"), s("three")])),
    ])
}

#[test]
fn merge_keeps_base_leaves_and_fills_gaps() {
    let r = merge(&sample_base(), &sample_overlay());
    let want = obj(vec![
        ("a", s("1")),
        ("b", obj(vec![("x", s("base")), ("y", s("new"))])),
        ("l", JsonValue::Array(vec![s("one")])),
        ("c", s("added")),
    ]);
    assert_eq!(r, want);
}

#[test]
fn merge_twice_equals_merge_once() {
    let once = merge(&sample_base(), &sample_overlay());
    let twice = merge(&once, &sample_overlay());
    assert_eq!(once, twice);
}

#[test]
fn merge_treats_arrays_as_leaves() {
    let base = obj(vec![("l", JsonValue::Array(vec![s("1")]))]);
    let over = obj(vec![("l", JsonValue::Array(vec![s("2"), s("3")]))]);
    assert_eq!(merge(&base, &over), obj(vec![("l", JsonValue::Array(vec![s("1")]))]));
}

#[test]
fn merge_keeps_a_scalar_base() {
    assert_eq!(merge(&s("text"), &sample_overlay()), s("text"));
}

#[test]
fn merge_into_empty_object_copies_overlay() {
    let r = merge(&obj(vec![]), &sample_overlay());
    assert_eq!(r, sample_overlay());
}

#[test]
fn json_accessors_find_members() {
    let v = sample_overlay();
    assert_eq!(v.get_str("c").map(|x| x.as_str()), Some("added"));
    assert!(v.get("missing").is_none());
    assert!(v.get("b").unwrap().get("y").is_some());
    assert_eq!(v.get("l").unwrap().as_array().map(|a| a.len()), Some(2));
}
