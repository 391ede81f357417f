#![allow(unused_imports, dead_code)]

use postmortem::{
    AdditionalPropertiesSetting, ArraySchema, CombinatorSchema, IntegerSchema, JsonPath, JsonValue, Member,
    ObjectSchema, PathSegment, RefSchema, RegistryError, Schema, SchemaError, SchemaErrors, SchemaLike, SchemaNode,
    SchemaRegistry, StringSchema, Validation, ValidationContext, ValidationResult,
};

fn to_value(v: &serde_json::Value) -> JsonValue {
    match v {
        serde_json::Value::Null => JsonValue::Null,
        serde_json::Value::Bool(b) => JsonValue::Bool(*b),
        serde_json::Value::Number(n) => {
            if let Some(i) = n.as_i64() {
                JsonValue::Int(i)
            } else if let Some(u) = n.as_u64() {
                JsonValue::UInt(u)
            } else {
                JsonValue::Float(n.to_string())
            }
        }
        serde_json::Value::String(s) => JsonValue::Str(s.clone()),
        serde_json::Value::Array(a) => JsonValue::Array(a.iter().into_iter().map(to_value).collect()),
        serde_json::Value::Object(m) => JsonValue::Object(
            m.iter()
                .map(|(k, v)| Member { key: k.clone(), value: to_value(v) })
                .collect(),
        ),
    }
}

fn j(text: &str) -> JsonValue {
    to_value(&serde_json::from_str::<serde_json::Value>(text).unwrap())
}


#[test]
fn test_ref_without_registry_fails() {
    let schema = Schema::ref_("UserId");
    let result = schema.validate(&j(r#"42"#), &postmortem::JsonPath::root());
    assert!(result.is_failure());
}

#[test]
fn test_ref_with_registry_succeeds() {
    let mut registry = SchemaRegistry::new();

    registry
        .register("UserId", Schema::integer().positive())
        .unwrap();

    let result = registry.validate("UserId", &j(r#"42"#)).unwrap();
    assert!(result.is_success());
}

#[test]
fn test_ref_in_object_field() {
    let mut registry = SchemaRegistry::new();

    registry
        .register("UserId", Schema::integer().positive())
        .unwrap();

    registry
        .register(
            "User",
            Schema::object()
                .field("id", Schema::ref_("UserId"))
                .field("name", Schema::string()),
        )
        .unwrap();

    let result = registry
        .validate(
            "User",
            &j(r#"{"id": 42, "name": "Alice"}"#),
        )
        .unwrap();

    assert!(result.is_success());
}

#[test]
fn test_ref_in_one_of_combinator() {
    let mut registry = SchemaRegistry::new();

    registry
        .register("StringId", Schema::string().min_len(1))
        .unwrap();

    registry
        .register("IntegerId", Schema::integer().positive())
        .unwrap();

    registry
        .register(
            "Id",
            Schema::one_of(vec![
                Schema::ref_("StringId").into_node(),
                Schema::ref_("IntegerId").into_node(),
            ]),
        )
        .unwrap();

    let result = registry.validate("Id", &j(r#""abc-123""#)).unwrap();
    assert!(result.is_success());

    let result = registry.validate("Id", &j(r#"42"#)).unwrap();
    assert!(result.is_success());

    let result = registry.validate("Id", &j(r#"-5"#)).unwrap();
    assert!(result.is_failure());
}

#[test]
fn test_ref_in_any_of_combinator() {
    let mut registry = SchemaRegistry::new();

    registry.register("Email", Schema::string()).unwrap();

    registry.register("PhoneNumber", Schema::string()).unwrap();

    registry
        .register(
            "Contact",
            Schema::any_of(vec![
                Schema::ref_("Email").into_node(),
                Schema::ref_("PhoneNumber").into_node(),
            ]),
        )
        .unwrap();

    let result = registry
        .validate("Contact", &j(r#""test@example.com""#))
        .unwrap();
    assert!(result.is_success());
}

#[test]
fn test_ref_in_all_of_combinator() {
    let mut registry = SchemaRegistry::new();

    registry
        .register("Named", Schema::object().field("name", Schema::string()))
        .unwrap();

    registry
        .register(
            "Timestamped",
            Schema::object().field("created_at", Schema::string()),
        )
        .unwrap();

    registry
        .register(
            "Entity",
            Schema::all_of(vec![
                Schema::ref_("Named").into_node(),
                Schema::ref_("Timestamped").into_node(),
            ]),
        )
        .unwrap();

    let result = registry
        .validate(
            "Entity",
            &j(r#"{"name": "Test", "created_at": "2025-01-01"}"#),
        )
        .unwrap();

    assert!(result.is_success());
}

#[test]
fn test_ref_in_optional_combinator() {
    let mut registry = SchemaRegistry::new();

    registry.register("Email", Schema::string()).unwrap();

    registry
        .register(
            "OptionalEmail",
            Schema::optional(Schema::ref_("Email").into_node()),
        )
        .unwrap();

    let result = registry.validate("OptionalEmail", &j(r#"null"#)).unwrap();
    assert!(result.is_success());

    let result = registry
        .validate("OptionalEmail", &j(r#""test@example.com""#))
        .unwrap();
    assert!(result.is_success());
}

#[test]
fn test_ref_in_array_items() {
    let mut registry = SchemaRegistry::new();

    registry
        .register("UserId", Schema::integer().positive())
        .unwrap();

    registry
        .register("UserIds", Schema::array(Schema::ref_("UserId")))
        .unwrap();

    let result = registry.validate("UserIds", &j(r#"[1, 2, 3]"#)).unwrap();
    assert!(result.is_success());

    let result = registry.validate("UserIds", &j(r#"[1, -2, 3]"#)).unwrap();
    assert!(result.is_failure());
}

#[test]
fn test_nested_combinator_refs() {
    let mut registry = SchemaRegistry::new();

    registry
        .register("StringId", Schema::string().min_len(1))
        .unwrap();

    registry
        .register("IntegerId", Schema::integer().positive())
        .unwrap();

    registry
        .register(
            "Id",
            Schema::any_of(vec![
                Schema::ref_("StringId").into_node(),
                Schema::ref_("IntegerId").into_node(),
            ]),
        )
        .unwrap();

    registry
        .register(
            "Entity",
            Schema::object()
                .field("id", Schema::ref_("Id"))
                .field("name", Schema::string()),
        )
        .unwrap();

    let result = registry
        .validate(
            "Entity",
            &j(r#"{"id": "abc-123", "name": "Test"}"#),
        )
        .unwrap();
    assert!(result.is_success());

    let result = registry
        .validate(
            "Entity",
            &j(r#"{"id": 42, "name": "Test"}"#),
        )
        .unwrap();
    assert!(result.is_success());
}

#[test]
fn test_collect_refs_from_combinators() {
    let schema = Schema::one_of(vec![
        Schema::ref_("A").into_node(),
        Schema::ref_("B").into_node(),
    ]);

    let mut refs = Vec::new();
    postmortem::schema::node::collect_refs(&schema.into_node(), &mut refs);

    refs.sort();
    assert_eq!(refs, vec!["A", "B"]);
}

#[test]
fn test_collect_refs_from_nested_combinators() {
    let inner = Schema::all_of(vec![
        Schema::ref_("A").into_node(),
        Schema::ref_("B").into_node(),
    ]);

    let outer = Schema::any_of(vec![
        inner.into_node(),
        Schema::ref_("C").into_node(),
    ]);

    let mut refs = Vec::new();
    postmortem::schema::node::collect_refs(&outer.into_node(), &mut refs);

    refs.sort();
    assert_eq!(refs, vec!["A", "B", "C"]);
}

#[test]
fn test_ref_resolution_error() {
    let mut registry = SchemaRegistry::new();

    registry
        .register(
            "User",
            Schema::object().field("id", Schema::ref_("MissingId")),
        )
        .unwrap();

    let result = registry
        .validate(
            "User",
            &j(r#"{"id": 42}"#),
        )
        .unwrap();

    assert!(result.is_failure());
}
