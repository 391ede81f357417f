//! Paths that label where in a nested value an error occurred.

use vstd::prelude::*;
use crate::text::{nat_text, push_decimal};

verus! {

/// One step of a path: a named object field or an array position.
#[derive(Debug, Clone, PartialEq, Eq, Hash)]
pub enum PathSegment {
    Field(String),
    Index(usize),
}

/// The mathematical form of a path segment.
pub enum Seg {
    Field(Seq<char>),
    Index(nat),
}

impl View for PathSegment {
    type V = Seg;

    open spec fn view(&self) -> Seg {
        match self {
            PathSegment::Field(name) => Seg::Field(name@),
            PathSegment::Index(i) => Seg::Index(*i as nat),
        }
    }
}

impl PathSegment {
    pub fn field(name: &str) -> (r: PathSegment)
        ensures
            r@ == Seg::Field(name@),
    {
        PathSegment::Field(String::from_str(name))
    }

    pub fn index(idx: usize) -> (r: PathSegment)
        ensures
            r@ == Seg::Index(idx as nat),
    {
        PathSegment::Index(idx)
    }

    pub fn copy(&self) -> (r: PathSegment)
        ensures
            r@ == self@,
    {
        match self {
            PathSegment::Field(name) => PathSegment::Field(name.clone()),
            PathSegment::Index(i) => PathSegment::Index(*i),
        }
    }

    pub fn same(&self, other: &PathSegment) -> (r: bool)
        ensures
            r == (self@ == other@),
    {
        match self {
            PathSegment::Field(a) => match other {
                PathSegment::Field(b) => {
                    let r = a.eq(b);
                    proof {
                        if !r {
                            assert(self@->Field_0 != other@->Field_0);
                        }
                    }
                    r
                },
                PathSegment::Index(_) => false,
            },
            PathSegment::Index(a) => match other {
                PathSegment::Index(b) => *a == *b,
                PathSegment::Field(_) => false,
            },
        }
    }
}

/// An immutable, append-only sequence of segments.
#[derive(Debug, Clone, PartialEq, Eq, Hash)]
pub struct JsonPath {
    segments: Vec<PathSegment>,
}

/// The view of a list of segments.
pub open spec fn segs_view(s: Seq<PathSegment>) -> Seq<Seg> {
    Seq::new(s.len(), |i: int| s[i]@)
}

impl View for JsonPath {
    type V = Seq<Seg>;

    closed spec fn view(&self) -> Seq<Seg> {
        segs_view(self.segments@)
    }
}

/// How a path prints: fields joined by dots, indices in brackets (`a[0].b`).
pub open spec fn path_text(p: Seq<Seg>) -> Seq<char>
    decreases p.len(),
{
    if p.len() == 0 {
        Seq::empty()
    } else {
        let prefix = path_text(p.drop_last());
        match p.last() {
            Seg::Field(name) => if p.len() == 1 {
                name
            } else {
                prefix + seq!['.'] + name
            },
            Seg::Index(i) => prefix + seq!['['] + nat_text(i) + seq![']'],
        }
    }
}

impl JsonPath {
    pub open spec fn spec_len(&self) -> nat {
        self@.len()
    }

    /// The empty path, which names the value itself.
    pub fn root() -> (r: JsonPath)
        ensures
            r@ == Seq::<Seg>::empty(),
    {
        let r = JsonPath { segments: Vec::new() };
        proof { assert(r@ =~= Seq::<Seg>::empty()); }
        r
    }

    pub fn from_field(name: &str) -> (r: JsonPath)
        ensures
            r@ == seq![Seg::Field(name@)],
    {
        let mut segments = Vec::new();
        segments.push(PathSegment::field(name));
        let r = JsonPath { segments };
        proof { assert(r@ =~= seq![Seg::Field(name@)]); }
        r
    }

    pub fn from_index(idx: usize) -> (r: JsonPath)
        ensures
            r@ == seq![Seg::Index(idx as nat)],
    {
        let mut segments = Vec::new();
        segments.push(PathSegment::index(idx));
        let r = JsonPath { segments };
        proof { assert(r@ =~= seq![Seg::Index(idx as nat)]); }
        r
    }

    /// A copy of this path; this one is left as it was.
    pub fn copy(&self) -> (r: JsonPath)
        ensures
            r@ == self@,
    {
        let mut segments: Vec<PathSegment> = Vec::new();
        let mut i: usize = 0;
        while i < self.segments.len()
            invariant
                i <= self.segments.len(),
                segments@.len() == i,
                forall|j: int| 0 <= j < i ==> #[trigger] segments@[j]@ == self.segments@[j]@,
            decreases self.segments.len() - i,
        {
            let c = self.segments[i].copy();
            segments.push(c);
            i = i + 1;
        }
        proof { assert(segs_view(segments@) =~= segs_view(self.segments@)); }
        JsonPath { segments }
    }

    /// This path extended by a field name.
    pub fn push_field(&self, name: &str) -> (r: JsonPath)
        ensures
            r@ == self@.push(Seg::Field(name@)),
    {
        let mut r = self.copy();
        r.segments.push(PathSegment::field(name));
        proof { assert(r@ =~= self@.push(Seg::Field(name@))); }
        r
    }

    /// This path extended by an array index.
    pub fn push_index(&self, index: usize) -> (r: JsonPath)
        ensures
            r@ == self@.push(Seg::Index(index as nat)),
    {
        let mut r = self.copy();
        r.segments.push(PathSegment::index(index));
        proof { assert(r@ =~= self@.push(Seg::Index(index as nat))); }
        r
    }

    pub fn is_root(&self) -> (r: bool)
        ensures
            r == (self@.len() == 0),
    {
        self.segments.len() == 0
    }

    pub fn len(&self) -> (r: usize)
        ensures
            r == self@.len(),
    {
        self.segments.len()
    }

    pub fn is_empty(&self) -> (r: bool)
        ensures
            r == (self@.len() == 0),
    {
        self.segments.len() == 0
    }

    /// The segments in order, from the outermost.
    pub fn segments(&self) -> (r: Vec<&PathSegment>)
        ensures
            r@.len() == self@.len(),
            forall|i: int| 0 <= i < r@.len() ==> r@[i]@ == #[trigger] self@[i],
    {
        let mut r: Vec<&PathSegment> = Vec::new();
        let mut i: usize = 0;
        while i < self.segments.len()
            invariant
                i <= self.segments.len(),
                r@.len() == i,
                forall|j: int| 0 <= j < i ==> r@[j]@ == #[trigger] self@[j],
            decreases self.segments.len() - i,
        {
            r.push(&self.segments[i]);
            i = i + 1;
        }
        r
    }

    /// The path without its last segment, or `None` at the root.
    pub fn parent(&self) -> (r: Option<JsonPath>)
        ensures
            self@.len() == 0 ==> r is None,
            self@.len() > 0 ==> r is Some && r->Some_0@ == self@.drop_last(),
    {
        if self.segments.len() == 0 {
            None
        } else {
            let mut p = self.copy();
            p.segments.pop();
            proof { assert(p@ =~= self@.drop_last()); }
            Some(p)
        }
    }

    /// The last segment, or `None` at the root.
    pub fn last(&self) -> (r: Option<&PathSegment>)
        ensures
            self@.len() == 0 ==> r is None,
            self@.len() > 0 ==> r is Some && r->Some_0@ == self@.last(),
    {
        let n = self.segments.len();
        if n == 0 {
            None
        } else {
            Some(&self.segments[n - 1])
        }
    }

    /// Whether two paths hold the same segments.
    pub fn same(&self, other: &JsonPath) -> (r: bool)
        ensures
            r == (self@ == other@),
    {
        if self.segments.len() != other.segments.len() {
            proof { assert(self@.len() != other@.len()); }
            return false;
        }
        let mut i: usize = 0;
        while i < self.segments.len()
            invariant
                i <= self.segments.len(),
                self.segments.len() == other.segments.len(),
                forall|j: int| 0 <= j < i ==> self@[j] == other@[j],
            decreases self.segments.len() - i,
        {
            if !self.segments[i].same(&other.segments[i]) {
                proof { assert(self@[i as int] != other@[i as int]); }
                return false;
            }
            i = i + 1;
        }
        proof { assert(self@ =~= other@); }
        true
    }

    /// The printed form: fields joined by dots, indices in brackets.
    pub fn to_string(&self) -> (r: String)
        ensures
            r@ == path_text(self@),
    {
        let mut out = String::new();
        let mut i: usize = 0;
        while i < self.segments.len()
            invariant
                i <= self.segments.len(),
                out@ == path_text(self@.subrange(0, i as int)),
            decreases self.segments.len() - i,
        {
            let ghost before = out@;
            proof {
                assert(self@.subrange(0, i + 1).drop_last() =~= self@.subrange(0, i as int));
            }
            match &self.segments[i] {
                PathSegment::Field(name) => {
                    if i > 0 {
                        out.append(".");
                        proof { reveal_strlit("."); }
                    }
                    out.append(name.as_str());
                },
                PathSegment::Index(idx) => {
                    out.append("[");
                    push_decimal(&mut out, *idx as u64);
                    out.append("]");
                    proof { reveal_strlit("["); reveal_strlit("]"); }
                },
            }
            i = i + 1;
            proof {
                let p = self@.subrange(0, i as int);
                assert(p.last() == self@[i - 1]);
                if i == 1 {
                    assert(before == Seq::<char>::empty());
                }
                assert(out@ =~= path_text(p));
            }
        }
        proof { assert(self@.subrange(0, i as int) =~= self@); }
        out
    }
}

} // verus!
