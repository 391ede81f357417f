//! Schemas composed of other schemas.

use vstd::prelude::*;
use crate::schema::node::SchemaNode;

verus! {

/// One-of, any-of, all-of and optional composition.
pub enum CombinatorSchema {
    /// Exactly one component must accept the value.
    OneOf(Vec<SchemaNode>),
    /// The first component, in order, that accepts the value decides.
    AnyOf(Vec<SchemaNode>),
    /// Every component must accept the value; the last one's output is kept.
    AllOf(Vec<SchemaNode>),
    /// Null is accepted as is; anything else goes to the inner schema.
    Optional(Box<SchemaNode>),
}

} // verus!
