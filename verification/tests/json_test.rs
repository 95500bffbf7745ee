use tricorder::json::merge;
use tricorder::prelude::{Json, JsonMap};

fn object(members: Vec<(&str, Json)>) -> Json {
    let mut map = JsonMap::new();
    for (name, value) in members {
        map.insert(name.to_string(), value);
    }
    Json::Object(map)
}

fn text(s: &str) -> Json {
    Json::Str(s.to_string())
}

#[test]
fn a_map_holds_what_was_set_last() {
    let mut map = JsonMap::new();
    assert!(map.is_empty());
    assert_eq!(map.get("a"), None);
    map.insert("a".to_string(), Json::Int(1));
    map.insert("b".to_string(), Json::Int(2));
    map.insert("a".to_string(), Json::Int(3));
    assert_eq!(map.len(), 2);
    assert!(!map.is_empty());
    assert_eq!(map.get("a"), Some(&Json::Int(3)));
    assert_eq!(map.get("b"), Some(&Json::Int(2)));
    assert_eq!((map.key_at(0).as_str(), map.value_at(0)), ("a", &Json::Int(3)));
    assert_eq!((map.key_at(1).as_str(), map.value_at(1)), ("b", &Json::Int(2)));
}

#[test]
fn a_map_keeps_its_names_in_order() {
    let mut map = JsonMap::new();
    for name in ["vars", "id", "user", "address", "tags", "Zed", "é", "id2", ""] {
        map.insert(name.to_string(), Json::Null);
    }
    let names: Vec<&str> = (0..map.len()).map(|i| map.key_at(i).as_str()).collect();
    assert_eq!(names, vec!["", "Zed", "address", "id", "id2", "tags", "user", "vars", "é"]);
    let mut sorted = names.clone();
    sorted.sort();
    assert_eq!(names, sorted);
}

#[test]
fn maps_with_the_same_members_are_equal() {
    let mut one = JsonMap::new();
    one.insert("b".to_string(), Json::Int(2));
    one.insert("a".to_string(), Json::Int(1));
    one.insert("c".to_string(), Json::Int(3));
    let mut other = JsonMap::new();
    other.insert("c".to_string(), Json::Int(0));
    other.insert("a".to_string(), Json::Int(1));
    other.insert("b".to_string(), Json::Int(2));
    assert_ne!(one, other);
    other.insert("c".to_string(), Json::Int(3));
    assert_eq!(one, other);
    other.insert("d".to_string(), Json::Null);
    other.remove("d");
    assert_eq!(one, other);
}

#[test]
fn a_removed_name_is_gone() {
    let mut map = JsonMap::new();
    map.insert("a".to_string(), Json::Int(1));
    map.insert("b".to_string(), Json::Int(2));
    map.insert("c".to_string(), Json::Int(3));
    map.remove("b");
    map.remove("nope");
    assert_eq!(map.len(), 2);
    assert_eq!(map.get("b"), None);
    assert!(!map.contains_key("b"));
    assert_eq!(map.key_at(0), "a");
    assert_eq!(map.key_at(1), "c");
}

#[test]
fn a_clone_of_a_value_is_equal_to_it() {
    let value = object(vec![
        ("a", Json::Array(vec![Json::Null, Json::Bool(false), Json::Int(-7)])),
        ("b", object(vec![("c", Json::Float("1.5".to_string())), ("d", text("x"))])),
    ]);
    assert_eq!(value.clone(), value);
}

#[test]
fn merge_replaces_anything_but_two_objects() {
    let mut a = Json::Int(1);
    merge(&mut a, &text("x"));
    assert_eq!(a, text("x"));

    let mut a = object(vec![("a", Json::Int(1))]);
    merge(&mut a, &Json::Null);
    assert_eq!(a, Json::Null);

    let mut a = Json::Array(vec![Json::Int(1)]);
    merge(&mut a, &object(vec![("a", Json::Int(1))]));
    assert_eq!(a, object(vec![("a", Json::Int(1))]));

    let mut a = Json::Array(vec![Json::Int(1), Json::Int(2)]);
    merge(&mut a, &Json::Array(vec![Json::Int(3)]));
    assert_eq!(a, Json::Array(vec![Json::Int(3)]));
}

#[test]
fn merge_overlays_the_members_of_two_objects() {
    let mut a = object(vec![
        ("data", text("data_from_file")),
        ("overwrittendata", text("data from file")),
    ]);
    let b = object(vec![
        ("overwrittendata", text("data_from_var1")),
        ("vardata", text("data_from_var2")),
    ]);
    merge(&mut a, &b);
    assert_eq!(
        a,
        object(vec![
            ("data", text("data_from_file")),
            ("overwrittendata", text("data_from_var1")),
            ("vardata", text("data_from_var2")),
        ])
    );
}

#[test]
fn merge_goes_into_nested_objects() {
    let mut a = object(vec![
        ("a", object(vec![("x", Json::Int(1)), ("y", Json::Int(2))])),
        ("b", Json::Int(3)),
    ]);
    let b = object(vec![
        ("a", object(vec![("y", Json::Int(20)), ("z", object(vec![("deep", Json::Null)]))])),
        ("c", object(vec![("new", Json::Bool(true))])),
    ]);
    merge(&mut a, &b);
    assert_eq!(
        a,
        object(vec![
            (
                "a",
                object(vec![
                    ("x", Json::Int(1)),
                    ("y", Json::Int(20)),
                    ("z", object(vec![("deep", Json::Null)])),
                ])
            ),
            ("b", Json::Int(3)),
            ("c", object(vec![("new", Json::Bool(true))])),
        ])
    );
}

#[test]
fn merge_keeps_the_names_in_order() {
    let mut a = object(vec![("m", Json::Int(1)), ("b", Json::Int(2))]);
    merge(&mut a, &object(vec![("z", Json::Int(3)), ("a", Json::Int(4)), ("m", Json::Int(5))]));
    match &a {
        Json::Object(map) => {
            let names: Vec<&str> = (0..map.len()).map(|i| map.key_at(i).as_str()).collect();
            assert_eq!(names, vec!["a", "b", "m", "z"]);
            assert_eq!(map.get("m"), Some(&Json::Int(5)));
        }
        _ => panic!("the merge of two objects is an object"),
    }
}

#[test]
fn merging_an_empty_object_changes_nothing() {
    let mut a = object(vec![("a", Json::Int(1))]);
    merge(&mut a, &object(vec![]));
    assert_eq!(a, object(vec![("a", Json::Int(1))]));
    let mut a = object(vec![]);
    merge(&mut a, &object(vec![("a", Json::Int(1))]));
    assert_eq!(a, object(vec![("a", Json::Int(1))]));
}

#[test]
fn the_parts_of_a_value() {
    assert_eq!(text("x").as_str(), Some("x"));
    assert_eq!(Json::Int(1).as_str(), None);
    assert_eq!(Json::Array(vec![Json::Null]).as_array(), Some(&vec![Json::Null]));
    assert_eq!(Json::Null.as_array(), None);
    assert_eq!(object(vec![]).as_object(), Some(&JsonMap::new()));
    assert_eq!(text("x").as_object(), None);
}
