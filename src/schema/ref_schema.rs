//! References to schemas registered by name.

use vstd::prelude::*;

verus! {

/// A reference to the schema registered under `name`.
pub struct RefSchema {
    pub name: String,
}

impl RefSchema {
    pub fn new(name: &str) -> (r: RefSchema)
        ensures
            r.name@ == name@,
    {
        RefSchema { name: String::from_str(name) }
    }

    pub fn name(&self) -> (r: &str)
        ensures
            r@ == self.name@,
    {
        self.name.as_str()
    }
}

} // verus!
