#![allow(unused_imports, dead_code)]

use postmortem::{
    AdditionalPropertiesSetting, ArraySchema, CombinatorSchema, IntegerSchema, JsonPath, JsonValue, Member,
    ObjectSchema, PathSegment, RefSchema, RegistryError, Schema, SchemaError, SchemaErrors, SchemaLike, SchemaNode,
    SchemaRegistry, StringSchema, Validation, ValidationContext,
};

use postmortem::loading::{register_document, schema_from_document, DocumentError};

#[test]
fn test_load_string_schema() {
    let mut registry = SchemaRegistry::new();
    let doc = j(r#"{"type": "string", "minLength": 1, "maxLength": 100}"#);
    assert!(register_document(&mut registry, "test", &doc).is_ok());
    assert!(registry.get("test").is_some());
    let errors = registry.validate("test", &j(r#""""#)).unwrap().into_result().unwrap_err();
    assert_eq!(errors.first().code, "min_length");
}

#[test]
fn test_load_multiple_schemas() {
    let mut registry = SchemaRegistry::new();
    assert!(register_document(&mut registry, "email", &j(r#"{"type": "string"}"#)).is_ok());
    assert!(register_document(&mut registry, "age", &j(r#"{"type": "integer"}"#)).is_ok());
    assert!(registry.get("email").is_some());
    assert!(registry.get("age").is_some());
}

#[test]
fn test_parse_error_accumulation() {
    let mut registry = SchemaRegistry::new();
    assert!(register_document(&mut registry, "valid", &j(r#"{"type": "string"}"#)).is_ok());
    assert!(register_document(&mut registry, "invalid", &j(r#"{"minLength": 3}"#)).is_err());
    assert!(registry.get("valid").is_some());
    assert!(registry.get("invalid").is_none());
}

#[test]
fn document_errors() {
    assert!(matches!(schema_from_document(&j(r#"{"type": 3}"#)), Err(DocumentError::MissingType)));
    match schema_from_document(&j(r#"{"type": "boolean"}"#)) {
        Err(DocumentError::UnsupportedType(t)) => assert_eq!(t, "boolean"),
        _ => panic!("expected an unsupported type"),
    }
    assert!(matches!(
        schema_from_document(&j(r#"{"type": "string", "pattern": "("}"#)),
        Err(DocumentError::InvalidPattern(_))
    ));
    let mut registry = SchemaRegistry::new();
    assert!(register_document(&mut registry, "x", &j(r#"{"type": "object"}"#)).is_ok());
    assert!(matches!(
        register_document(&mut registry, "x", &j(r#"{"type": "array"}"#)),
        Err(DocumentError::Registry(RegistryError::DuplicateName(_)))
    ));
}

#[test]
fn document_pattern_is_enforced() {
    let mut registry = SchemaRegistry::new();
    let doc = j(r#"{"type": "string", "pattern": "^[a-z]+$"}"#);
    register_document(&mut registry, "word", &doc).unwrap();
    assert!(registry.validate("word", &j(r#""abc""#)).unwrap().is_success());
    let errors = registry.validate("word", &j(r#""ab1""#)).unwrap().into_result().unwrap_err();
    assert_eq!(errors.first().code, "pattern");
}

fn to_value(v: &serde_json::Value) -> JsonValue {
    match v {
        serde_json::Value::Null => JsonValue::Null,
        serde_json::Value::Bool(b) => JsonValue::Bool(*b),
        serde_json::Value::Number(n) => {
            if let Some(i) = n.as_i64() {
                JsonValue::Int(i)
            } else if let Some(u) = n.as_u64() {
                JsonValue::UInt(u)
            } else {
                JsonValue::Float(n.to_string())
            }
        }
        serde_json::Value::String(s) => JsonValue::Str(s.clone()),
        serde_json::Value::Array(a) => JsonValue::Array(a.iter().map(to_value).collect()),
        serde_json::Value::Object(m) => JsonValue::Object(
            m.iter()
                .map(|(k, v)| Member { key: k.clone(), value: to_value(v) })
                .collect(),
        ),
    }
}

fn j(text: &str) -> JsonValue {
    to_value(&serde_json::from_str::<serde_json::Value>(text).unwrap())
}

#[test]
fn document_registered_schema_matches_keywords() {
    let mut registry = SchemaRegistry::new();
    let doc = j(r#"{"type": "string", "minLength": 2, "maxLength": 3}"#);
    register_document(&mut registry, "code", &doc).unwrap();
    let errors = registry.validate("code", &j(r#""abcd""#)).unwrap().into_result().unwrap_err();
    assert_eq!(errors.first().code, "max_length");
    assert!(registry.validate("code", &j(r#""ab""#)).unwrap().is_success());
    register_document(&mut registry, "list", &j(r#"{"type": "array"}"#)).unwrap();
    let errors = registry.validate("list", &j("[1]")).unwrap().into_result().unwrap_err();
    assert_eq!(errors.first().path.to_string(), "[0]");
    assert_eq!(errors.first().expected, Some("object".to_string()));
    match schema_from_document(&j(r#"{"type": "string", "pattern": "("}"#)) {
        Err(DocumentError::InvalidPattern(e)) => {
            assert_eq!(e.pattern, "(");
            assert!(!e.reason.is_empty());
        }
        _ => panic!("expected an invalid pattern"),
    }
}
