#![allow(unused_imports, dead_code)]

use postmortem::{
    AdditionalPropertiesSetting, ArraySchema, CombinatorSchema, IntegerSchema, JsonPath, JsonValue, Member,
    ObjectSchema, PathSegment, RefSchema, RegistryError, Schema, SchemaError, SchemaErrors, SchemaLike, SchemaNode,
    SchemaRegistry, StringSchema, Validation, ValidationContext, ValidationResult,
};

fn to_value(v: &serde_json::Value) -> JsonValue {
    match v {
        serde_json::Value::Null => JsonValue::Null,
        serde_json::Value::Bool(b) => JsonValue::Bool(*b),
        serde_json::Value::Number(n) => {
            if let Some(i) = n.as_i64() {
                JsonValue::Int(i)
            } else if let Some(u) = n.as_u64() {
                JsonValue::UInt(u)
            } else {
                JsonValue::Float(n.to_string())
            }
        }
        serde_json::Value::String(s) => JsonValue::Str(s.clone()),
        serde_json::Value::Array(a) => JsonValue::Array(a.iter().into_iter().map(to_value).collect()),
        serde_json::Value::Object(m) => JsonValue::Object(
            m.iter()
                .map(|(k, v)| Member { key: k.clone(), value: to_value(v) })
                .collect(),
        ),
    }
}

fn j(text: &str) -> JsonValue {
    to_value(&serde_json::from_str::<serde_json::Value>(text).unwrap())
}


#[test]
fn test_register_and_get() {
    let mut registry = SchemaRegistry::new();

    registry
        .register("Email", Schema::string().min_len(1))
        .unwrap();

    let schema = registry.get("Email");
    assert!(schema.is_some());

    let missing = registry.get("Missing");
    assert!(missing.is_none());
}

#[test]
fn test_duplicate_registration_fails() {
    let mut registry = SchemaRegistry::new();

    registry.register("Email", Schema::string()).unwrap();

    let result = registry.register("Email", Schema::integer());
    assert!(result.is_err());
}

#[test]
fn test_validate_with_registry() {
    let mut registry = SchemaRegistry::new();

    registry
        .register(
            "User",
            Schema::object()
                .field("name", Schema::string().min_len(1))
                .field("age", Schema::integer().positive()),
        )
        .unwrap();

    let result = registry
        .validate(
            "User",
            &j(r#"{"name": "Alice", "age": 30}"#),
        )
        .unwrap();

    assert!(result.is_success());
}

#[test]
fn test_validate_missing_schema() {
    let mut registry = SchemaRegistry::new();

    let result = registry.validate("Missing", &j(r#"{}"#));
    assert!(result.is_err());
}

#[test]
fn test_max_depth_configuration() {
    let mut registry = SchemaRegistry::new().with_max_depth(50);

    registry.register("Simple", Schema::string()).unwrap();

    // Should still work normally
    let result = registry.validate("Simple", &j(r#""test""#)).unwrap();
    assert!(result.is_success());
}

#[test]
fn test_validate_refs_with_valid_references() {
    let mut registry = SchemaRegistry::new();

    registry
        .register("UserId", Schema::integer().positive())
        .unwrap();

    registry
        .register(
            "User",
            Schema::object()
                .field("id", Schema::ref_("UserId"))
                .field("name", Schema::string()),
        )
        .unwrap();

    let unresolved = registry.validate_refs();
    assert!(unresolved.is_empty());
}

#[test]
fn test_validate_refs_with_missing_references() {
    let mut registry = SchemaRegistry::new();

    registry
        .register("User", Schema::object().field("id", Schema::ref_("UserId")))
        .unwrap();

    let unresolved = registry.validate_refs();
    assert_eq!(unresolved, vec!["UserId"]);
}

#[test]
fn test_validate_refs_with_multiple_missing() {
    let mut registry = SchemaRegistry::new();

    registry
        .register(
            "User",
            Schema::object()
                .field("id", Schema::ref_("UserId"))
                .field("role", Schema::ref_("Role")),
        )
        .unwrap();

    let mut unresolved = registry.validate_refs();
    unresolved.sort();
    assert_eq!(unresolved, vec!["Role", "UserId"]);
}



#[test]
fn test_validation_with_nested_refs() {
    let mut registry = SchemaRegistry::new();

    registry
        .register("UserId", Schema::integer().positive())
        .unwrap();

    registry.register("Email", Schema::string()).unwrap();

    registry
        .register(
            "User",
            Schema::object()
                .field("id", Schema::ref_("UserId"))
                .field("email", Schema::ref_("Email")),
        )
        .unwrap();

    let result = registry
        .validate(
            "User",
            &j(r#"{"id": 42, "email": "test@example.com"}"#),
        )
        .unwrap();

    assert!(result.is_success());
}

#[test]
fn test_validation_with_invalid_nested_ref() {
    let mut registry = SchemaRegistry::new();

    registry
        .register("UserId", Schema::integer().positive())
        .unwrap();

    registry
        .register("User", Schema::object().field("id", Schema::ref_("UserId")))
        .unwrap();

    let result = registry
        .validate(
            "User",
            &j(r#"{"id": -5}"#),
        )
        .unwrap();

    assert!(result.is_failure());
}

#[test]
fn test_default_registry() {
    let mut registry = SchemaRegistry::default();

    registry.register("Test", Schema::string()).unwrap();

    assert!(registry.get("Test").is_some());
}

#[test]
fn test_registry_with_array_of_refs() {
    let mut registry = SchemaRegistry::new();

    registry
        .register("UserId", Schema::integer().positive())
        .unwrap();

    registry
        .register("UserList", Schema::array(Schema::ref_("UserId")))
        .unwrap();

    let result = registry.validate("UserList", &j(r#"[1, 2, 3]"#)).unwrap();
    assert!(result.is_success());

    let result = registry.validate("UserList", &j(r#"[1, -2, 3]"#)).unwrap();
    assert!(result.is_failure());
}
