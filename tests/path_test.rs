use postmortem::path::{JsonPath, PathSegment};
use std::collections::HashSet;

#[test]
fn test_root_path_is_empty() {
    let path = JsonPath::root();
    assert!(path.is_root());
    assert!(path.is_empty());
    assert_eq!(path.len(), 0);
    assert_eq!(path.to_string(), "");
}

#[test]
fn test_single_field() {
    let path = JsonPath::root().push_field("user");
    assert_eq!(path.to_string(), "user");
    assert_eq!(path.len(), 1);
}

#[test]
fn test_single_index() {
    let path = JsonPath::root().push_index(0);
    assert_eq!(path.to_string(), "[0]");
}

#[test]
fn test_nested_fields() {
    let path = JsonPath::root().push_field("user").push_field("email");
    assert_eq!(path.to_string(), "user.email");
}

#[test]
fn test_field_with_index() {
    let path = JsonPath::root().push_field("users").push_index(0);
    assert_eq!(path.to_string(), "users[0]");
}

#[test]
fn test_complex_path() {
    let path = JsonPath::root().push_field("users").push_index(0).push_field("email");
    assert_eq!(path.to_string(), "users[0].email");
}

#[test]
fn test_deeply_nested() {
    let path = JsonPath::root()
        .push_field("body")
        .push_field("data")
        .push_index(42)
        .push_field("items")
        .push_index(0)
        .push_field("name");
    assert_eq!(path.to_string(), "body.data[42].items[0].name");
}

#[test]
fn test_path_immutability() {
    let base = JsonPath::root().push_field("users");
    let path_a = base.push_index(0);
    let path_b = base.push_index(1);
    assert_eq!(base.to_string(), "users");
    assert_eq!(path_a.to_string(), "users[0]");
    assert_eq!(path_b.to_string(), "users[1]");
}

#[test]
fn test_parent_path() {
    let path = JsonPath::root().push_field("users").push_index(0).push_field("email");
    let parent = path.parent().unwrap();
    assert_eq!(parent.to_string(), "users[0]");
    let grandparent = parent.parent().unwrap();
    assert_eq!(grandparent.to_string(), "users");
    let root = grandparent.parent().unwrap();
    assert!(root.is_root());
    assert!(root.parent().is_none());
}

#[test]
fn path_test_from_constructors() {
    let field_path = JsonPath::from_field("name");
    assert_eq!(field_path.to_string(), "name");
    let index_path = JsonPath::from_index(5);
    assert_eq!(index_path.to_string(), "[5]");
}

#[test]
fn test_last_segment() {
    let path = JsonPath::root().push_field("users").push_index(0);
    assert_eq!(path.last(), Some(&PathSegment::Index(0)));
    let root = JsonPath::root();
    assert_eq!(root.last(), None);
}

#[test]
fn test_segments_iterator() {
    let path = JsonPath::root().push_field("a").push_index(1).push_field("b");
    let segments: Vec<&PathSegment> = path.segments();
    assert_eq!(segments.len(), 3);
    assert_eq!(segments[0], &PathSegment::Field("a".to_string()));
    assert_eq!(segments[1], &PathSegment::Index(1));
    assert_eq!(segments[2], &PathSegment::Field("b".to_string()));
}

#[test]
fn test_equality() {
    let path1 = JsonPath::root().push_field("a").push_index(0);
    let path2 = JsonPath::root().push_field("a").push_index(0);
    let path3 = JsonPath::root().push_field("a").push_index(1);
    assert_eq!(path1, path2);
    assert_ne!(path1, path3);
}

#[test]
fn test_clone() {
    let path = JsonPath::root().push_field("test");
    let cloned = path.clone();
    assert_eq!(path, cloned);
}

#[test]
fn test_path_construction_and_display() {
    assert_eq!(JsonPath::root().to_string(), "");
    assert_eq!(JsonPath::root().push_field("name").to_string(), "name");
    assert_eq!(JsonPath::root().push_index(0).to_string(), "[0]");
    let path = JsonPath::root()
        .push_field("users")
        .push_index(0)
        .push_field("address")
        .push_field("city");
    assert_eq!(path.to_string(), "users[0].address.city");
}

#[test]
fn test_path_segments_preserved() {
    let path = JsonPath::root().push_field("data").push_index(42).push_field("value");
    let segments: Vec<&PathSegment> = path.segments();
    assert_eq!(segments.len(), 3);
    match &segments[0] {
        PathSegment::Field(name) => assert_eq!(name, "data"),
        _ => panic!("Expected Field segment"),
    }
    match &segments[1] {
        PathSegment::Index(idx) => assert_eq!(*idx, 42),
        _ => panic!("Expected Index segment"),
    }
    match &segments[2] {
        PathSegment::Field(name) => assert_eq!(name, "value"),
        _ => panic!("Expected Field segment"),
    }
}

#[test]
fn test_path_is_immutable() {
    let base = JsonPath::root().push_field("items");
    let path1 = base.push_index(0);
    let path2 = base.push_index(1);
    let path3 = base.push_field("count");
    assert_eq!(base.to_string(), "items");
    assert_eq!(path1.to_string(), "items[0]");
    assert_eq!(path2.to_string(), "items[1]");
    assert_eq!(path3.to_string(), "items.count");
}

#[test]
fn test_path_equality() {
    let path1 = JsonPath::root().push_field("a").push_index(0);
    let path2 = JsonPath::root().push_field("a").push_index(0);
    let path3 = JsonPath::root().push_field("a").push_index(1);
    let path4 = JsonPath::root().push_field("b").push_index(0);
    assert_eq!(path1, path2);
    assert_ne!(path1, path3);
    assert_ne!(path1, path4);
}

#[test]
fn test_path_parent_chain() {
    let path = JsonPath::root().push_field("a").push_field("b").push_index(0);
    let parent1 = path.parent().expect("should have parent");
    assert_eq!(parent1.to_string(), "a.b");
    let parent2 = parent1.parent().expect("should have parent");
    assert_eq!(parent2.to_string(), "a");
    let parent3 = parent2.parent().expect("should have parent");
    assert!(parent3.is_root());
    assert!(parent3.parent().is_none());
}

#[test]
fn test_consecutive_indices() {
    let path = JsonPath::root().push_index(0).push_index(1).push_index(2);
    assert_eq!(path.to_string(), "[0][1][2]");
}

#[test]
fn path_test_test_from_constructors() {
    let field = JsonPath::from_field("name");
    assert_eq!(field.to_string(), "name");
    assert_eq!(field.len(), 1);
    let index = JsonPath::from_index(5);
    assert_eq!(index.to_string(), "[5]");
    assert_eq!(index.len(), 1);
}

#[test]
fn test_path_hash() {
    let mut set = HashSet::new();
    set.insert(JsonPath::root().push_field("a"));
    set.insert(JsonPath::root().push_field("b"));
    set.insert(JsonPath::root().push_field("a"));
    assert_eq!(set.len(), 2);
}

#[test]
fn test_path_debug() {
    let path = JsonPath::root().push_field("test").push_index(0);
    let debug = format!("{:?}", path);
    assert!(debug.contains("JsonPath"));
    assert!(debug.contains("Field"));
    assert!(debug.contains("Index"));
}
