//! Building schemas from JSON Schema documents, as a directory loader reads them.

use vstd::prelude::*;
use crate::json::{Json, JsonValue, field_of};
use crate::registry::{RegistryError, SchemaRegistry, lookup};
use crate::schema::array::ArraySchema;
use crate::schema::node::SchemaNode;
use crate::schema::numeric::IntegerSchema;
use crate::schema::object::ObjectSchema;
use crate::schema::pattern::{PatternError, regex_compiles};
use crate::schema::string::{StringConstraint, StringSchema};
use crate::text::text_eq;

verus! {

/// Why a document could not become a schema.
#[derive(Debug)]
pub enum DocumentError {
    /// The document has no string `type`.
    MissingType,
    /// The `type` names a kind this library does not build.
    UnsupportedType(String),
    /// The `pattern` does not compile.
    InvalidPattern(PatternError),
    /// Registering the schema failed.
    Registry(RegistryError),
}

/// A non-negative integer that fits in `usize`, as a length keyword holds it.
pub open spec fn length_keyword(v: Option<Json>) -> Option<nat> {
    match v {
        Some(Json::Int(n)) => if 0 <= n <= usize::MAX { Some(n as nat) } else { None },
        Some(Json::UInt(n)) => if n <= usize::MAX { Some(n as nat) } else { None },
        _ => None,
    }
}

/// An object schema with nothing declared.
pub open spec fn empty_object(n: SchemaNode) -> bool {
    n matches SchemaNode::Object(o) && o.fields@.len() == 0 && o.rules@.len() == 0
        && o.additional is Allow && o.type_error_message is None && o.skip_on_field_errors
}

/// The text of a string keyword.
pub open spec fn text_keyword(v: Option<Json>) -> Option<Seq<char>> {
    match v {
        Some(Json::Str(s)) => Some(s),
        _ => None,
    }
}

/// The constraints a string document asks for, in the order minLength,
/// maxLength, pattern; each only when its keyword is present.
pub open spec fn string_document_matches(doc: Json, cs: Seq<StringConstraint>) -> bool {
    let a = match length_keyword(field_of(doc, "minLength"@)) { Some(_) => 1int, None => 0int };
    let b = match length_keyword(field_of(doc, "maxLength"@)) { Some(_) => 1int, None => 0int };
    let c = match text_keyword(field_of(doc, "pattern"@)) { Some(_) => 1int, None => 0int };
    &&& cs.len() == a + b + c
    &&& length_keyword(field_of(doc, "minLength"@)) matches Some(n) ==> cs[0] matches StringConstraint::MinLength { min, message }
        && min == n && message is None
    &&& length_keyword(field_of(doc, "maxLength"@)) matches Some(n) ==> cs[a] matches StringConstraint::MaxLength { max, message }
        && max == n && message is None
    &&& text_keyword(field_of(doc, "pattern"@)) matches Some(p) ==> cs[a + b] matches StringConstraint::Pattern { regex, message }
        && regex.source() == p && message is None
}

fn length_of(v: Option<&JsonValue>) -> (r: Option<usize>)
    ensures
        match r {
            Some(n) => length_keyword(match v { Some(x) => Some(x@), None => None }) == Some(n as nat),
            None => length_keyword(match v { Some(x) => Some(x@), None => None }) is None,
        },
{
    match v {
        Some(JsonValue::Int(n)) => if 0 <= *n && (*n as u64) <= (usize::MAX as u64) { Some(*n as usize) } else { None },
        Some(JsonValue::UInt(n)) => if (*n as u128) <= (usize::MAX as u128) { Some(*n as usize) } else { None },
        _ => None,
    }
}

/// What building a schema from `doc` gives: for a `string` type (with
/// `minLength`, `maxLength` and `pattern`), `integer`, `object` or `array`
/// (of objects) the schema the keywords describe; otherwise the error.
pub open spec fn document_outcome(doc: Json, r: Result<SchemaNode, DocumentError>) -> bool {
    match text_keyword(field_of(doc, "type"@)) {
        None => r matches Err(DocumentError::MissingType),
        Some(t) => if t == "integer"@ {
            r matches Ok(SchemaNode::Integer(s)) && s.constraints@.len() == 0 && s.type_error_message is None
        } else if t == "object"@ {
            r matches Ok(n) && empty_object(n)
        } else if t == "array"@ {
            r matches Ok(SchemaNode::Array(a)) && a.constraints@.len() == 0 && a.type_error_message is None
                && empty_object(*a.items)
        } else if t == "string"@ {
            if text_keyword(field_of(doc, "pattern"@)) matches Some(p) && !regex_compiles(p) {
                r matches Err(DocumentError::InvalidPattern(_))
            } else {
                r matches Ok(SchemaNode::String(s)) && s.transforms@.len() == 0 && s.type_error_message is None
                    && string_document_matches(doc, s.constraints@)
            }
        } else {
            r matches Err(DocumentError::UnsupportedType(u)) && u@ == t
        },
    }
}

/// Whether `doc` describes a schema this library builds: its `type` is
/// `integer`, `object`, `array`, or `string` with a pattern (if any) that compiles.
pub open spec fn document_builds(doc: Json) -> bool {
    match text_keyword(field_of(doc, "type"@)) {
        Some(t) => t == "integer"@ || t == "object"@ || t == "array"@ || (t == "string"@
            && !(text_keyword(field_of(doc, "pattern"@)) matches Some(p) && !regex_compiles(p))),
        None => false,
    }
}

/// The schema a JSON Schema document describes.
pub fn schema_from_document(doc: &JsonValue) -> (r: Result<SchemaNode, DocumentError>)
    ensures
        document_outcome(doc@, r),
        r is Ok <==> document_builds(doc@),
{
    proof {
        reveal_strlit("type");
        reveal_strlit("integer");
        reveal_strlit("object");
        reveal_strlit("array");
        reveal_strlit("string");
        reveal_strlit("minLength");
        reveal_strlit("maxLength");
        reveal_strlit("pattern");
    }
    let t = match doc.get("type") {
        Some(JsonValue::Str(t)) => t,
        _ => return Err(DocumentError::MissingType),
    };
    if text_eq(t.as_str(), "integer") {
        Ok(SchemaNode::Integer(IntegerSchema::new()))
    } else if text_eq(t.as_str(), "object") {
        Ok(SchemaNode::Object(ObjectSchema::new()))
    } else if text_eq(t.as_str(), "array") {
        Ok(SchemaNode::Array(ArraySchema::new(ObjectSchema::new())))
    } else if text_eq(t.as_str(), "string") {
        let mut s = StringSchema::new();
        let ghost d = doc@;
        let min_v = doc.get("minLength");
        let min = length_of(min_v);
        match min {
            Some(n) => { s = s.min_len(n); },
            None => {},
        }
        let ghost a = s.constraints@;
        proof {
            assert(field_of(d, "minLength"@) == (match min_v { Some(x) => Some(x@), None => None }));
            if let Some(n) = min {
                assert(a[0] == (StringConstraint::MinLength { min: n, message: None }));
            }
        }
        let max_v = doc.get("maxLength");
        let max = length_of(max_v);
        match max {
            Some(n) => { s = s.max_len(n); },
            None => {},
        }
        let ghost b = s.constraints@;
        proof {
            assert(field_of(d, "maxLength"@) == (match max_v { Some(x) => Some(x@), None => None }));
            if let Some(n) = max {
                assert(b[a.len() as int] == (StringConstraint::MaxLength { max: n, message: None }));
            }
        }
        proof {
            assert(b.len() == a.len() + (if max is Some { 1int } else { 0int }));
            assert(forall|i: int| 0 <= i < a.len() ==> b[i] == a[i]);
            if min is Some {
                assert(b[0] == a[0]);
            }
        }
        match doc.get("pattern") {
            Some(JsonValue::Str(p)) => {
                match s.pattern(p.as_str()) {
                    Ok(with) => {
                        s = with;
                        proof {
                            assert(s.constraints@.drop_last() == b);
                            assert(forall|i: int| 0 <= i < b.len() ==> s.constraints@[i] == b[i]);
                        }
                    },
                    Err(e) => { return Err(DocumentError::InvalidPattern(e)); },
                }
            },
            _ => {},
        }
        proof {
            let cs = s.constraints@;
            assert(forall|i: int| 0 <= i < b.len() ==> cs[i] == b[i]);
            if min is Some {
                assert(cs[0] == b[0]);
            }
            if max is Some {
                assert(cs[a.len() as int] == b[a.len() as int]);
            }
            let ka = match length_keyword(field_of(d, "minLength"@)) { Some(_) => 1int, None => 0int };
            let kb = match length_keyword(field_of(d, "maxLength"@)) { Some(_) => 1int, None => 0int };
            let kc = match text_keyword(field_of(d, "pattern"@)) { Some(_) => 1int, None => 0int };
            assert(a.len() == ka);
            assert(b.len() == ka + kb);
            assert(cs.len() == ka + kb + kc);
            assert(length_keyword(field_of(d, "minLength"@)) matches Some(n) ==> cs[0] matches StringConstraint::MinLength { min, message }
                && min == n && message is None);
            assert(length_keyword(field_of(d, "maxLength"@)) matches Some(n) ==> cs[ka] matches StringConstraint::MaxLength { max, message }
                && max == n && message is None);
            assert(string_document_matches(d, cs));
        }
        Ok(SchemaNode::String(s))
    } else {
        Err(DocumentError::UnsupportedType(t.clone()))
    }
}

/// Builds the schema a document describes and registers it under `name`:
/// a document that describes no schema gives its error, a taken name gives
/// `DuplicateName`, and otherwise the schema is registered last.
pub fn register_document(registry: &mut SchemaRegistry, name: &str, doc: &JsonValue) -> (r: Result<(), DocumentError>)
    ensures
        final(registry).max_depth == old(registry).max_depth,
        !document_builds(doc@) ==> (r matches Err(e) && document_outcome(doc@, Err(e)))
            && final(registry).entries == old(registry).entries,
        document_builds(doc@) && lookup(old(registry).entries@, name@) is Some ==>
            (r matches Err(DocumentError::Registry(RegistryError::DuplicateName(n))) && n@ == name@)
            && final(registry).entries == old(registry).entries,
        document_builds(doc@) && lookup(old(registry).entries@, name@) is None ==> r is Ok
            && final(registry).entries@.len() == old(registry).entries@.len() + 1
            && final(registry).entries@.drop_last() == old(registry).entries@
            && final(registry).entries@.last().name@ == name@
            && document_outcome(doc@, Ok(final(registry).entries@.last().schema)),
{
    match schema_from_document(doc) {
        Ok(node) => match registry.register(name, node) {
            Ok(()) => Ok(()),
            Err(e) => Err(DocumentError::Registry(e)),
        },
        Err(e) => Err(e),
    }
}

} // verus!
