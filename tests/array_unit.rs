#![allow(unused_imports, dead_code)]

use postmortem::{
    AdditionalPropertiesSetting, ArraySchema, CombinatorSchema, IntegerSchema, JsonPath, JsonValue, Member,
    ObjectSchema, PathSegment, RefSchema, RegistryError, Schema, SchemaError, SchemaErrors, SchemaLike, SchemaNode,
    SchemaRegistry, StringSchema, Validation, ValidationContext,
};

fn to_value(v: &serde_json::Value) -> JsonValue {
    match v {
        serde_json::Value::Null => JsonValue::Null,
        serde_json::Value::Bool(b) => JsonValue::Bool(*b),
        serde_json::Value::Number(n) => {
            if let Some(i) = n.as_i64() {
                JsonValue::Int(i)
            } else if let Some(u) = n.as_u64() {
                JsonValue::UInt(u)
            } else {
                JsonValue::Float(n.to_string())
            }
        }
        serde_json::Value::String(s) => JsonValue::Str(s.clone()),
        serde_json::Value::Array(a) => JsonValue::Array(a.iter().into_iter().map(to_value).collect()),
        serde_json::Value::Object(m) => JsonValue::Object(
            m.iter()
                .map(|(k, v)| Member { key: k.clone(), value: to_value(v) })
                .collect(),
        ),
    }
}

fn j(text: &str) -> JsonValue {
    to_value(&serde_json::from_str::<serde_json::Value>(text).unwrap())
}


fn unwrap_success<T, E: std::fmt::Debug>(v: Validation<T, E>) -> T {
    v.into_result().unwrap()
}

fn unwrap_failure<T: std::fmt::Debug, E>(v: Validation<T, E>) -> E {
    v.into_result().unwrap_err()
}

// Basic array validation tests

#[test]
fn test_array_schema_accepts_array() {
    let schema = ArraySchema::new(StringSchema::new());
    let result = schema.validate(&j(r#"["hello", "world"]"#), &JsonPath::root());
    assert!(result.is_success());
    let items = unwrap_success(result);
    assert_eq!(items, vec![j(r#""hello""#), j(r#""world""#)]);
}

#[test]
fn test_array_schema_accepts_empty_array() {
    let schema = ArraySchema::new(StringSchema::new());
    let result = schema.validate(&j(r#"[]"#), &JsonPath::root());
    assert!(result.is_success());
    let items = unwrap_success(result);
    assert!(items.is_empty());
}

#[test]
fn test_array_schema_rejects_non_array() {
    let schema = ArraySchema::new(StringSchema::new());

    let result = schema.validate(&j(r#""not an array""#), &JsonPath::root());
    assert!(result.is_failure());
    let errors = unwrap_failure(result);
    assert_eq!(errors.first().code, "invalid_type");
    assert_eq!(errors.first().got, Some("string".to_string()));

    let result = schema.validate(&j(r#"42"#), &JsonPath::root());
    assert!(result.is_failure());

    let result = schema.validate(&j(r#"null"#), &JsonPath::root());
    assert!(result.is_failure());

    let result = schema.validate(&j(r#"{"key": "value"}"#), &JsonPath::root());
    assert!(result.is_failure());
}

// Item validation tests

#[test]
fn test_array_validates_items() {
    let schema = ArraySchema::new(IntegerSchema::new().positive());
    let result = schema.validate(&j(r#"[1, 2, 3]"#), &JsonPath::root());
    assert!(result.is_success());
}

#[test]
fn test_array_reports_invalid_items() {
    let schema = ArraySchema::new(IntegerSchema::new().positive());
    let result = schema.validate(&j(r#"[1, -2, 3]"#), &JsonPath::root());
    assert!(result.is_failure());
    let errors = unwrap_failure(result);
    assert_eq!(errors.len(), 1);
    assert_eq!(errors.first().code, "positive");
    assert_eq!(errors.first().path.to_string(), "[1]");
}

#[test]
fn test_array_accumulates_multiple_item_errors() {
    let schema = ArraySchema::new(IntegerSchema::new().positive());
    let result = schema.validate(&j(r#"[-1, -2, 3, -4]"#), &JsonPath::root());
    assert!(result.is_failure());
    let errors = unwrap_failure(result);
    assert_eq!(errors.len(), 3);
}

#[test]
fn test_array_validates_nested_objects() {
    let user_schema = ObjectSchema::new()
        .field("name", StringSchema::new().min_len(1))
        .field("age", IntegerSchema::new().positive());

    let schema = ArraySchema::new(user_schema);

    // Valid nested objects
    let result = schema.validate(
        &j(r#"[{"name": "Alice", "age": 30}, {"name": "Bob", "age": 25}]"#),
        &JsonPath::root(),
    );
    assert!(result.is_success());

    // Invalid nested objects
    let result = schema.validate(
        &j(r#"[{"name": "", "age": 30}, {"name": "Bob", "age": -5}]"#),
        &JsonPath::root(),
    );
    assert!(result.is_failure());
    let errors = unwrap_failure(result);
    assert_eq!(errors.len(), 2);

    // Check paths include array index
    let paths: Vec<_> = errors.iter().into_iter().map(|e| e.path.to_string()).collect();
    assert!(paths.contains(&"[0].name".to_string()));
    assert!(paths.contains(&"[1].age".to_string()));
}

// Length constraint tests

#[test]
fn array_test_min_len_constraint() {
    let schema = ArraySchema::new(StringSchema::new()).min_len(2);

    let result = schema.validate(&j(r#"["a", "b"]"#), &JsonPath::root());
    assert!(result.is_success());

    let result = schema.validate(&j(r#"["a", "b", "c"]"#), &JsonPath::root());
    assert!(result.is_success());

    let result = schema.validate(&j(r#"["a"]"#), &JsonPath::root());
    assert!(result.is_failure());
    let errors = unwrap_failure(result);
    assert_eq!(errors.first().code, "min_length");
}

#[test]
fn array_test_max_len_constraint() {
    let schema = ArraySchema::new(StringSchema::new()).max_len(3);

    let result = schema.validate(&j(r#"["a", "b"]"#), &JsonPath::root());
    assert!(result.is_success());

    let result = schema.validate(&j(r#"["a", "b", "c"]"#), &JsonPath::root());
    assert!(result.is_success());

    let result = schema.validate(&j(r#"["a", "b", "c", "d"]"#), &JsonPath::root());
    assert!(result.is_failure());
    let errors = unwrap_failure(result);
    assert_eq!(errors.first().code, "max_length");
}

#[test]
fn test_non_empty_constraint() {
    let schema = ArraySchema::new(StringSchema::new()).non_empty();

    let result = schema.validate(&j(r#"["a"]"#), &JsonPath::root());
    assert!(result.is_success());

    let result = schema.validate(&j(r#"[]"#), &JsonPath::root());
    assert!(result.is_failure());
    let errors = unwrap_failure(result);
    assert_eq!(errors.first().code, "min_length");
}

#[test]
fn array_test_combined_length_constraints() {
    let schema = ArraySchema::new(StringSchema::new()).min_len(2).max_len(4);

    let result = schema.validate(&j(r#"["a"]"#), &JsonPath::root());
    assert!(result.is_failure());

    let result = schema.validate(&j(r#"["a", "b"]"#), &JsonPath::root());
    assert!(result.is_success());

    let result = schema.validate(&j(r#"["a", "b", "c", "d"]"#), &JsonPath::root());
    assert!(result.is_success());

    let result = schema.validate(&j(r#"["a", "b", "c", "d", "e"]"#), &JsonPath::root());
    assert!(result.is_failure());
}

// Uniqueness constraint tests

#[test]
fn test_unique_constraint_with_distinct_values() {
    let schema = ArraySchema::new(StringSchema::new()).unique();
    let result = schema.validate(&j(r#"["a", "b", "c"]"#), &JsonPath::root());
    assert!(result.is_success());
}

#[test]
fn test_unique_constraint_with_duplicates() {
    let schema = ArraySchema::new(StringSchema::new()).unique();
    let result = schema.validate(&j(r#"["a", "b", "a"]"#), &JsonPath::root());
    assert!(result.is_failure());
    let errors = unwrap_failure(result);
    assert_eq!(errors.first().code, "unique");
}

#[test]
fn test_unique_constraint_with_integers() {
    let schema = ArraySchema::new(IntegerSchema::new()).unique();

    let result = schema.validate(&j(r#"[1, 2, 3]"#), &JsonPath::root());
    assert!(result.is_success());

    let result = schema.validate(&j(r#"[1, 2, 1]"#), &JsonPath::root());
    assert!(result.is_failure());
}

#[test]
fn test_unique_constraint_empty_array() {
    let schema = ArraySchema::new(StringSchema::new()).unique();
    let result = schema.validate(&j(r#"[]"#), &JsonPath::root());
    assert!(result.is_success());
}

#[test]
fn test_unique_constraint_single_item() {
    let schema = ArraySchema::new(StringSchema::new()).unique();
    let result = schema.validate(&j(r#"["only"]"#), &JsonPath::root());
    assert!(result.is_success());
}

#[test]
fn test_unique_by_constraint() {
    let user_schema = ObjectSchema::new()
        .field("id", IntegerSchema::new())
        .field("name", StringSchema::new());

    let schema = ArraySchema::new(user_schema)
        .unique_by("id");

    // Unique IDs
    let result = schema.validate(
        &j(r#"[{"id": 1, "name": "Alice"}, {"id": 2, "name": "Bob"}]"#),
        &JsonPath::root(),
    );
    assert!(result.is_success());

    // Duplicate IDs
    let result = schema.validate(
        &j(r#"[{"id": 1, "name": "Alice"}, {"id": 1, "name": "Bob"}]"#),
        &JsonPath::root(),
    );
    assert!(result.is_failure());
    let errors = unwrap_failure(result);
    assert_eq!(errors.first().code, "unique");
}

// Error accumulation tests

#[test]
fn array_test_error_accumulation_length_and_items() {
    let schema = ArraySchema::new(IntegerSchema::new().positive()).min_len(3);

    // Too short AND has invalid items
    let result = schema.validate(&j(r#"[-1, -2]"#), &JsonPath::root());
    assert!(result.is_failure());
    let errors = unwrap_failure(result);
    // Should have: 1 min_length error + 2 positive errors
    assert_eq!(errors.len(), 3);
    assert_eq!(errors.with_code("min_length").len(), 1);
    assert_eq!(errors.with_code("positive").len(), 2);
}

#[test]
fn test_error_accumulation_all_constraint_types() {
    let schema = ArraySchema::new(IntegerSchema::new().positive())
        .min_len(5)
        .unique();

    // Too short, has invalid items, and has duplicates
    let result = schema.validate(&j(r#"[1, -2, 1]"#), &JsonPath::root());
    assert!(result.is_failure());
    let errors = unwrap_failure(result);
    // Should have: 1 min_length + 1 positive + 1 unique
    assert_eq!(errors.len(), 3);
}

// Path tracking tests

#[test]
fn test_path_tracking_simple() {
    let schema = ArraySchema::new(StringSchema::new().min_len(5));
    let result = schema.validate(&j(r#"["hi"]"#), &JsonPath::root());
    assert!(result.is_failure());
    let errors = unwrap_failure(result);
    assert_eq!(errors.first().path.to_string(), "[0]");
}

#[test]
fn test_path_tracking_nested() {
    let inner_schema = ObjectSchema::new().field("value", IntegerSchema::new().positive());
    let schema = ArraySchema::new(inner_schema);

    let path = JsonPath::root().push_field("items");
    let result = schema.validate(&j(r#"[{"value": -5}]"#), &path);
    assert!(result.is_failure());
    let errors = unwrap_failure(result);
    assert_eq!(errors.first().path.to_string(), "items[0].value");
}

#[test]
fn test_path_tracking_deeply_nested() {
    let inner_array = ArraySchema::new(IntegerSchema::new().positive());
    let outer_schema = ObjectSchema::new().field("numbers", inner_array);
    let outer_array = ArraySchema::new(outer_schema);

    let result = outer_array.validate(
        &j(r#"[{"numbers": [1, -2, 3]}]"#),
        &JsonPath::root(),
    );
    assert!(result.is_failure());
    let errors = unwrap_failure(result);
    assert_eq!(errors.first().path.to_string(), "[0].numbers[1]");
}

// Custom error message tests

#[test]
fn array_test_custom_type_error_message() {
    let schema = ArraySchema::new(StringSchema::new()).error("must be a list of tags");

    let result = schema.validate(&j(r#""not an array""#), &JsonPath::root());
    assert!(result.is_failure());
    let errors = unwrap_failure(result);
    assert_eq!(errors.first().message, "must be a list of tags");
}

#[test]
fn test_custom_min_length_error_message() {
    let schema = ArraySchema::new(StringSchema::new())
        .min_len(1)
        .error("at least one tag is required");

    let result = schema.validate(&j(r#"[]"#), &JsonPath::root());
    assert!(result.is_failure());
    let errors = unwrap_failure(result);
    assert_eq!(errors.first().message, "at least one tag is required");
}

#[test]
fn test_custom_unique_error_message() {
    let schema = ArraySchema::new(StringSchema::new())
        .unique()
        .error("all tags must be unique");

    let result = schema.validate(&j(r#"["a", "a"]"#), &JsonPath::root());
    assert!(result.is_failure());
    let errors = unwrap_failure(result);
    assert_eq!(errors.first().message, "all tags must be unique");
}

// Edge case tests

#[test]
fn test_array_of_nulls() {
    // String schema should reject nulls
    let schema = ArraySchema::new(StringSchema::new());
    let result = schema.validate(&j(r#"[null, null]"#), &JsonPath::root());
    assert!(result.is_failure());
    let errors = unwrap_failure(result);
    assert_eq!(errors.len(), 2);
}

#[test]
fn test_mixed_type_array() {
    // Integer schema should reject strings
    let schema = ArraySchema::new(IntegerSchema::new());
    let result = schema.validate(&j(r#"[1, "two", 3]"#), &JsonPath::root());
    assert!(result.is_failure());
    let errors = unwrap_failure(result);
    assert_eq!(errors.len(), 1);
    assert_eq!(errors.first().path.to_string(), "[1]");
}

#[test]
fn test_large_array() {
    let schema = ArraySchema::new(IntegerSchema::new());
    let large_array = JsonValue::Array((0..1000).map(JsonValue::Int).collect());
    let result = schema.validate(&large_array, &JsonPath::root());
    assert!(result.is_success());
}

#[test]
fn test_unique_with_objects() {
    let schema = ArraySchema::new(ObjectSchema::new()).unique();

    // Different objects
    let result = schema.validate(&j(r#"[{"a": 1}, {"a": 2}]"#), &JsonPath::root());
    assert!(result.is_success());

    // Same objects
    let result = schema.validate(&j(r#"[{"a": 1}, {"a": 1}]"#), &JsonPath::root());
    assert!(result.is_failure());
}

// SchemaLike trait tests

#[test]
fn test_schema_like_validate_to_value() {
    let schema = ArraySchema::new(StringSchema::new());
    let result = schema.validate_to_value(&j(r#"["hello"]"#), &JsonPath::root());
    assert!(result.is_success());
    match result.into_result().unwrap() {
        JsonValue::Array(arr) => {
            assert_eq!(arr, vec![j(r#""hello""#)]);
        }
        _ => panic!("Expected array"),
    }
}
