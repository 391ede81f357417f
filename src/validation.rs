//! The context threaded through validation: the registry that references
//! resolve against, and how many references have been followed.

use vstd::prelude::*;
use crate::registry::{SchemaRegistry, lookup};
use crate::schema::node::SchemaNode;

verus! {

/// Carries the registry and the reference depth through one validation run.
pub struct ValidationContext<'a> {
    pub registry: &'a SchemaRegistry,
    pub depth: usize,
    pub max_depth: usize,
}

impl<'a> ValidationContext<'a> {
    /// A context at depth zero.
    pub fn new(registry: &'a SchemaRegistry, max_depth: usize) -> (r: ValidationContext<'a>)
        ensures
            r.registry == registry,
            r.depth == 0,
            r.max_depth == max_depth,
    {
        ValidationContext { registry, depth: 0, max_depth }
    }

    /// The same context one reference further down.
    pub fn increment_depth(&self) -> (r: ValidationContext<'a>)
        requires
            self.depth < usize::MAX,
        ensures
            r.registry == self.registry,
            r.depth == self.depth + 1,
            r.max_depth == self.max_depth,
    {
        ValidationContext { registry: self.registry, depth: self.depth + 1, max_depth: self.max_depth }
    }

    pub fn depth(&self) -> (r: usize)
        ensures
            r == self.depth,
    {
        self.depth
    }

    pub fn max_depth(&self) -> (r: usize)
        ensures
            r == self.max_depth,
    {
        self.max_depth
    }

    pub fn registry(&self) -> (r: &'a SchemaRegistry)
        ensures
            r == self.registry,
    {
        self.registry
    }
}

/// Looking up schemas by name.
pub trait RegistryAccess {
    spec fn schema_named(&self, name: Seq<char>) -> Option<SchemaNode>;

    fn get_schema(&self, name: &str) -> (r: Option<&SchemaNode>)
        ensures
            match r {
                Some(s) => self.schema_named(name@) == Some(*s),
                None => self.schema_named(name@) is None,
            },
    ;
}

impl RegistryAccess for SchemaRegistry {
    open spec fn schema_named(&self, name: Seq<char>) -> Option<SchemaNode> {
        lookup(self.entries@, name)
    }

    fn get_schema(&self, name: &str) -> (r: Option<&SchemaNode>) {
        self.find(name)
    }
}

} // verus!
