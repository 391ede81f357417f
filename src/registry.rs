//! A named store of schemas, against which references resolve.

use vstd::prelude::*;
use crate::error::{SchemaErrors, Validation};
use crate::json::JsonValue;
use crate::path::JsonPath;
use crate::schema::node::{Env, SchemaLike, SchemaNode, collect_refs, env_of, name_views, outcome, refs_of, validate_node};
use crate::text::{lemma_text_lt_total, lemma_text_lt_transitive, text_eq, text_less, text_lt};
use crate::validation::ValidationContext;

verus! {

/// One registered schema.
pub struct RegistryEntry {
    pub name: String,
    pub schema: SchemaNode,
}

/// The schema registered under `name`, if any.
pub open spec fn lookup(entries: Seq<RegistryEntry>, name: Seq<char>) -> Option<SchemaNode>
    decreases entries.len(),
{
    if entries.len() == 0 {
        None
    } else {
        match lookup(entries.drop_last(), name) {
            Some(s) => Some(s),
            None => if entries.last().name@ == name {
                Some(entries.last().schema)
            } else {
                None
            },
        }
    }
}

/// Why a registry operation failed.
#[derive(Debug)]
pub enum RegistryError {
    /// A schema of this name is already registered.
    DuplicateName(String),
    /// No schema of this name is registered.
    SchemaNotFound(String),
}

/// Every name referenced by the first `n` registered schemas.
pub open spec fn registry_refs(entries: Seq<RegistryEntry>, n: int) -> Seq<Seq<char>>
    decreases n,
{
    if n <= 0 || n > entries.len() {
        Seq::empty()
    } else {
        registry_refs(entries, n - 1) + refs_of(entries[n - 1].schema)
    }
}

/// Whether the names are in strictly increasing order.
pub open spec fn strictly_sorted(v: Seq<Seq<char>>) -> bool {
    forall|i: int, j: int| 0 <= i < j < v.len() ==> text_lt(#[trigger] v[i], #[trigger] v[j])
}

/// Schemas by name, each registered once, with the reference depth limit
/// that validation through the registry uses.
pub struct SchemaRegistry {
    pub entries: Vec<RegistryEntry>,
    pub max_depth: usize,
}

impl SchemaRegistry {
    /// The schema registered under `name`, if any.
    pub fn find(&self, name: &str) -> (r: Option<&SchemaNode>)
        ensures
            match r {
                Some(s) => lookup(self.entries@, name@) == Some(*s),
                None => lookup(self.entries@, name@) is None,
            },
    {
        let mut i: usize = 0;
        while i < self.entries.len()
            invariant
                i <= self.entries.len(),
                lookup(self.entries@.subrange(0, i as int), name@) is None,
            decreases self.entries.len() - i,
        {
            proof { assert(self.entries@.subrange(0, i + 1).drop_last() =~= self.entries@.subrange(0, i as int)); }
            if text_eq(self.entries[i].name.as_str(), name) {
                proof { lemma_lookup_prefix(self.entries@, name@, i + 1); }
                return Some(&self.entries[i].schema);
            }
            i = i + 1;
        }
        proof { assert(self.entries@.subrange(0, i as int) =~= self.entries@); }
        None
    }
}

pub proof fn lemma_lookup_prefix(entries: Seq<RegistryEntry>, name: Seq<char>, n: int)
    requires
        0 <= n <= entries.len(),
        lookup(entries.subrange(0, n), name) is Some,
    ensures
        lookup(entries, name) == lookup(entries.subrange(0, n), name),
    decreases entries.len(),
{
    if n < entries.len() {
        assert(entries.drop_last().subrange(0, n) =~= entries.subrange(0, n));
        lemma_lookup_prefix(entries.drop_last(), name, n);
    } else {
        assert(entries.subrange(0, n) =~= entries);
    }
}

impl SchemaRegistry {
    /// An empty registry with a reference depth limit of 100.
    pub fn new() -> (r: SchemaRegistry)
        ensures
            r.entries@.len() == 0,
            r.max_depth == 100,
    {
        SchemaRegistry { entries: Vec::new(), max_depth: 100 }
    }

    pub fn with_max_depth(self, depth: usize) -> (r: SchemaRegistry)
        ensures
            r.entries == self.entries,
            r.max_depth == depth,
    {
        SchemaRegistry { max_depth: depth, ..self }
    }

    /// Registers `schema` under `name`; a name can be registered only once.
    pub fn register<S: SchemaLike>(&mut self, name: &str, schema: S) -> (r: Result<(), RegistryError>)
        ensures
            final(self).max_depth == old(self).max_depth,
            lookup(old(self).entries@, name@) is Some ==> (r matches Err(RegistryError::DuplicateName(n)) && n@ == name@)
                && final(self).entries == old(self).entries,
            lookup(old(self).entries@, name@) is None ==> r is Ok
                && final(self).entries@.len() == old(self).entries@.len() + 1
                && final(self).entries@.drop_last() == old(self).entries@
                && final(self).entries@.last().name@ == name@
                && final(self).entries@.last().schema == schema.node(),
    {
        match self.find(name) {
            Some(_) => Err(RegistryError::DuplicateName(String::from_str(name))),
            None => {
                self.entries.push(RegistryEntry { name: String::from_str(name), schema: schema.into_node() });
                proof { assert(final(self).entries@.drop_last() =~= old(self).entries@); }
                Ok(())
            },
        }
    }

    /// The schema registered under `name`, if any.
    pub fn get(&self, name: &str) -> (r: Option<&SchemaNode>)
        ensures
            match r {
                Some(s) => lookup(self.entries@, name@) == Some(*s),
                None => lookup(self.entries@, name@) is None,
            },
    {
        self.find(name)
    }

    /// Validates `value` against the schema named `name`, at the root path,
    /// with references resolved here from depth zero.
    pub fn validate(&self, name: &str, value: &JsonValue) -> (r: Result<Validation<JsonValue, SchemaErrors>, RegistryError>)
        ensures
            lookup(self.entries@, name@) is None ==> (r matches Err(RegistryError::SchemaNotFound(n)) && n@ == name@),
            lookup(self.entries@, name@) is Some ==> r is Ok && r->Ok_0@ == outcome(lookup(self.entries@, name@)->Some_0, value@, Seq::empty(),
                Some(Env { registry: *self, depth: 0, max_depth: self.max_depth as nat })),
    {
        match self.find(name) {
            None => Err(RegistryError::SchemaNotFound(String::from_str(name))),
            Some(s) => {
                let ctx = ValidationContext::new(self, self.max_depth);
                let root = JsonPath::root();
                Ok(validate_node(s, value, &root, Some(&ctx)))
            },
        }
    }

    /// The names referenced anywhere in the registry that no schema is
    /// registered under, each once, in increasing order.
    pub fn validate_refs(&self) -> (r: Vec<String>)
        ensures
            strictly_sorted(name_views(r@)),
            forall|x: Seq<char>| name_views(r@).contains(x) <==>
                (registry_refs(self.entries@, self.entries@.len() as int).contains(x) && lookup(self.entries@, x) is None),
    {
        let mut all: Vec<String> = Vec::new();
        let mut i: usize = 0;
        while i < self.entries.len()
            invariant
                i <= self.entries.len(),
                name_views(all@) == registry_refs(self.entries@, i as int),
            decreases self.entries.len() - i,
        {
            collect_refs(&self.entries[i].schema, &mut all);
            i = i + 1;
        }
        let ghost every = name_views(all@);
        let mut out: Vec<String> = Vec::new();
        let mut k: usize = 0;
        while k < all.len()
            invariant
                k <= all.len(),
                every == name_views(all@),
                strictly_sorted(name_views(out@)),
                forall|x: Seq<char>| name_views(out@).contains(x) <==>
                    (every.subrange(0, k as int).contains(x) && lookup(self.entries@, x) is None),
            decreases all.len() - k,
        {
            let x = &all[k];
            let ghost xv = x@;
            let ghost before = name_views(out@);
            proof {
                assert(every.subrange(0, k + 1) =~= every.subrange(0, k as int).push(xv));
            }
            let unresolved = match self.find(x.as_str()) {
                Some(_) => false,
                None => true,
            };
            if unresolved {
                let mut p: usize = 0;
                while p < out.len() && text_less(out[p].as_str(), x.as_str())
                    invariant
                        p <= out.len(),
                        before == name_views(out@),
                        xv == x@,
                        forall|q: int| 0 <= q < p ==> text_lt(#[trigger] before[q], xv),
                    decreases out.len() - p,
                {
                    p = p + 1;
                }
                let present = p < out.len() && text_eq(out[p].as_str(), x.as_str());
                if !present {
                    out.insert(p, x.clone());
                    proof {
                        let after = name_views(out@);
                        assert(after =~= before.insert(p as int, xv));
                        if p < before.len() {
                            assert(!text_lt(before[p as int], xv));
                            assert(before[p as int] != xv);
                            lemma_text_lt_total(before[p as int], xv);
                        }
                        assert forall|i: int, j: int| 0 <= i < j < after.len() implies text_lt(#[trigger] after[i], #[trigger] after[j]) by {
                            if j < p {
                                assert(after[i] == before[i] && after[j] == before[j]);
                            } else if j == p {
                                assert(after[i] == before[i]);
                            } else if i == p {
                                assert(after[j] == before[j - 1]);
                                if j - 1 > p {
                                    assert(text_lt(before[p as int], before[j - 1]));
                                    lemma_text_lt_transitive(xv, before[p as int], before[j - 1]);
                                }
                            } else if i < p {
                                assert(after[i] == before[i] && after[j] == before[j - 1]);
                            } else {
                                assert(after[i] == before[i - 1] && after[j] == before[j - 1]);
                            }
                        }
                        assert forall|y: Seq<char>| after.contains(y) <==> (before.contains(y) || y == xv) by {
                            if after.contains(y) {
                                let q = choose|q: int| 0 <= q < after.len() && after[q] == y;
                                if q < p {
                                    assert(before[q] == y);
                                } else if q > p {
                                    assert(before[q - 1] == y);
                                }
                            }
                            if before.contains(y) {
                                let q = choose|q: int| 0 <= q < before.len() && before[q] == y;
                                if q < p {
                                    assert(after[q] == y);
                                } else {
                                    assert(after[q + 1] == y);
                                }
                            }
                            if y == xv {
                                assert(after[p as int] == y);
                            }
                        }
                    }
                } else {
                    proof { assert(before[p as int] == xv); }
                }
            }
            proof {
                let now = name_views(out@);
                assert(xv == every[k as int]);
                assert forall|y: Seq<char>| now.contains(y) <==>
                    (every.subrange(0, k + 1).contains(y) && lookup(self.entries@, y) is None) by {
                    let pre = every.subrange(0, k as int);
                    let ext = every.subrange(0, k + 1);
                    assert(ext =~= pre.push(xv));
                    if ext.contains(y) && y != xv {
                        let q = choose|q: int| 0 <= q < ext.len() && #[trigger] ext[q] == y;
                        assert(pre[q] == y);
                    }
                    if pre.contains(y) {
                        let q = choose|q: int| 0 <= q < pre.len() && #[trigger] pre[q] == y;
                        assert(ext[q] == y);
                    }
                    assert(ext[k as int] == xv);
                }
            }
            k = k + 1;
        }
        proof { assert(every.subrange(0, k as int) =~= every); }
        out
    }
}

impl Default for SchemaRegistry {
    fn default() -> (r: SchemaRegistry)
        ensures
            r.entries@.len() == 0,
            r.max_depth == 100,
    {
        SchemaRegistry::new()
    }
}

} // verus!
