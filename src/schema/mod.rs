//! Schemas and the builders that make them.

use vstd::prelude::*;
use crate::schema::array::ArraySchema;
use crate::schema::combinators::CombinatorSchema;
use crate::schema::node::{SchemaLike, SchemaNode};
use crate::schema::numeric::IntegerSchema;
use crate::schema::object::ObjectSchema;
use crate::schema::ref_schema::RefSchema;
use crate::schema::string::StringSchema;

pub mod numeric;
pub mod pattern;
pub mod formats;
pub mod string;
pub mod node;
pub mod object;
pub mod array;
pub mod combinators;
pub mod ref_schema;

verus! {

/// Entry points for building schemas.
pub struct Schema;

impl Schema {
    pub fn string() -> (r: StringSchema)
        ensures
            r.constraints@.len() == 0,
            r.transforms@.len() == 0,
            r.type_error_message is None,
    {
        StringSchema::new()
    }

    pub fn integer() -> (r: IntegerSchema)
        ensures
            r.constraints@.len() == 0,
            r.type_error_message is None,
    {
        IntegerSchema::new()
    }

    pub fn object() -> (r: ObjectSchema)
        ensures
            r.fields@.len() == 0,
            r.additional is Allow,
            r.type_error_message is None,
            r.rules@.len() == 0,
            r.skip_on_field_errors,
    {
        ObjectSchema::new()
    }

    pub fn array<S: SchemaLike>(items: S) -> (r: ArraySchema)
        ensures
            *r.items == items.node(),
            r.constraints@.len() == 0,
            r.type_error_message is None,
    {
        ArraySchema::new(items)
    }

    pub fn one_of(schemas: Vec<SchemaNode>) -> (r: CombinatorSchema)
        ensures
            r == CombinatorSchema::OneOf(schemas),
    {
        CombinatorSchema::OneOf(schemas)
    }

    pub fn any_of(schemas: Vec<SchemaNode>) -> (r: CombinatorSchema)
        ensures
            r == CombinatorSchema::AnyOf(schemas),
    {
        CombinatorSchema::AnyOf(schemas)
    }

    pub fn all_of(schemas: Vec<SchemaNode>) -> (r: CombinatorSchema)
        ensures
            r == CombinatorSchema::AllOf(schemas),
    {
        CombinatorSchema::AllOf(schemas)
    }

    pub fn optional<S: SchemaLike>(inner: S) -> (r: CombinatorSchema)
        ensures
            r == CombinatorSchema::Optional(Box::new(inner.node())),
    {
        CombinatorSchema::Optional(Box::new(inner.into_node()))
    }

    pub fn ref_(name: &str) -> (r: RefSchema)
        ensures
            r.name@ == name@,
    {
        RefSchema::new(name)
    }
}

} // verus!
