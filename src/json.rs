//! JSON-shaped values, as the validators read them.

use vstd::prelude::*;

verus! {

broadcast use vstd::std_specs::vec::group_vec_axioms, vstd::seq::group_seq_axioms;

/// A JSON value. Integers that fit in `i64` are `Int`; larger non-negative
/// integers are `UInt`; any other number is `Float`, kept as its decimal text.
/// An object is an ordered list of entries. Two values are equal when they
/// have the same form: objects compare entry by entry in order, and an `Int`
/// never equals a `UInt`, so `UInt` should hold only values above `i64::MAX`.
#[derive(Debug, PartialEq)]
pub enum JsonValue {
    Null,
    Bool(bool),
    Int(i64),
    UInt(u64),
    Float(String),
    Str(String),
    Array(Vec<JsonValue>),
    Object(Vec<Member>),
}

/// One entry of an object.
#[derive(Debug, PartialEq)]
pub struct Member {
    pub key: String,
    pub value: JsonValue,
}

/// The mathematical form of a JSON value.
pub enum Json {
    Null,
    Bool(bool),
    Int(int),
    UInt(int),
    Float(Seq<char>),
    Str(Seq<char>),
    Array(Seq<Json>),
    Object(Seq<Prop>),
}

/// The mathematical form of an object entry.
pub struct Prop {
    pub key: Seq<char>,
    pub value: Json,
}

impl View for JsonValue {
    type V = Json;

    open spec fn view(&self) -> Json
        decreases self,
    {
        match self {
            JsonValue::Null => Json::Null,
            JsonValue::Bool(b) => Json::Bool(*b),
            JsonValue::Int(n) => Json::Int(*n as int),
            JsonValue::UInt(n) => Json::UInt(*n as int),
            JsonValue::Float(t) => Json::Float(t@),
            JsonValue::Str(s) => Json::Str(s@),
            JsonValue::Array(items) => Json::Array(
                Seq::new(
                    items.len() as nat,
                    |i: int|
                        if 0 <= i < items.len() {
                            items@[i].view()
                        } else {
                            Json::Null
                        },
                ),
            ),
            JsonValue::Object(entries) => Json::Object(
                Seq::new(
                    entries.len() as nat,
                    |i: int|
                        if 0 <= i < entries.len() {
                            Prop { key: entries@[i].key@, value: entries@[i].value.view() }
                        } else {
                            Prop { key: Seq::<char>::empty(), value: Json::Null }
                        },
                ),
            ),
        }
    }
}

/// The type name used in error reports.
pub open spec fn kind_name(v: Json) -> Seq<char> {
    match v {
        Json::Null => "null"@,
        Json::Bool(_) => "boolean"@,
        Json::Int(_) | Json::UInt(_) | Json::Float(_) => "number"@,
        Json::Str(_) => "string"@,
        Json::Array(_) => "array"@,
        Json::Object(_) => "object"@,
    }
}

/// The first entry of an object with the given key.
pub open spec fn entry_index(entries: Seq<Prop>, key: Seq<char>) -> Option<int>
    decreases entries.len(),
{
    if entries.len() == 0 {
        None
    } else {
        match entry_index(entries.drop_last(), key) {
            Some(i) => Some(i),
            None => if entries.last().key == key {
                Some(entries.len() - 1)
            } else {
                None
            },
        }
    }
}

pub proof fn lemma_entry_index_prefix(entries: Seq<Prop>, key: Seq<char>, n: int)
    requires
        0 <= n <= entries.len(),
        entry_index(entries.subrange(0, n), key) is Some,
    ensures
        entry_index(entries, key) == entry_index(entries.subrange(0, n), key),
    decreases entries.len(),
{
    if n < entries.len() {
        assert(entries.drop_last().subrange(0, n) =~= entries.subrange(0, n));
        lemma_entry_index_prefix(entries.drop_last(), key, n);
    } else {
        assert(entries.subrange(0, n) =~= entries);
    }
}

/// The value under `key` in an object, if the value is an object that has it.
pub open spec fn field_of(v: Json, key: Seq<char>) -> Option<Json> {
    match v {
        Json::Object(entries) => match entry_index(entries, key) {
            Some(i) => Some(entries[i].value),
            None => None,
        },
        _ => None,
    }
}

impl JsonValue {
    /// A copy of this value.
    pub fn copy(&self) -> (r: JsonValue)
        ensures
            r@ == self@,
        decreases self,
    {
        match self {
            JsonValue::Null => JsonValue::Null,
            JsonValue::Bool(b) => JsonValue::Bool(*b),
            JsonValue::Int(n) => JsonValue::Int(*n),
            JsonValue::UInt(n) => JsonValue::UInt(*n),
            JsonValue::Float(t) => JsonValue::Float(t.clone()),
            JsonValue::Str(s) => JsonValue::Str(s.clone()),
            JsonValue::Array(items) => {
                let ghost x = match self@ { Json::Array(x) => x, _ => Seq::empty() };
                let mut out: Vec<JsonValue> = Vec::new();
                let mut i: usize = 0;
                while i < items.len()
                    invariant
                        i <= items.len(),
                        *self == JsonValue::Array(*items),
                        self@ == Json::Array(x),
                        x.len() == items.len(),
                        forall|j: int| 0 <= j < items.len() ==> #[trigger] x[j] == items@[j]@,
                        out@.len() == i,
                        forall|j: int| 0 <= j < i ==> #[trigger] out@[j]@ == x[j],
                    decreases items.len() - i,
                {
                    proof {
                        assert(decreases_to!(*self => *items));
                        assert(decreases_to!(*items => items@[i as int]));
                    }
                    let c = items[i].copy();
                    out.push(c);
                    i = i + 1;
                }
                let r = JsonValue::Array(out);
                proof {
                    let a = r@->Array_0;
                    assert(a.len() == x.len());
                    assert forall|j: int| 0 <= j < a.len() implies a[j] == x[j] by {
                        assert(a[j] == out@[j]@);
                    }
                    assert(a =~= x);
                }
                r
            },
            JsonValue::Object(entries) => {
                let ghost x = match self@ { Json::Object(x) => x, _ => Seq::empty() };
                let mut out: Vec<Member> = Vec::new();
                let mut i: usize = 0;
                while i < entries.len()
                    invariant
                        i <= entries.len(),
                        *self == JsonValue::Object(*entries),
                        self@ == Json::Object(x),
                        x.len() == entries.len(),
                        forall|j: int| 0 <= j < entries.len() ==> #[trigger] x[j] == (Prop { key: entries@[j].key@, value: entries@[j].value@ }),
                        out@.len() == i,
                        forall|j: int| 0 <= j < i ==> #[trigger] out@[j].key@ == x[j].key && out@[j].value@ == x[j].value,
                    decreases entries.len() - i,
                {
                    proof {
                        assert(decreases_to!(*self => *entries));
                        assert(decreases_to!(*entries => entries@[i as int]));
                        assert(decreases_to!(entries@[i as int] => entries@[i as int].value));
                    }
                    let k = entries[i].key.clone();
                    let v = entries[i].value.copy();
                    out.push(Member { key: k, value: v });
                    i = i + 1;
                }
                let r = JsonValue::Object(out);
                proof {
                    let a = r@->Object_0;
                    assert(a.len() == x.len());
                    assert forall|j: int| 0 <= j < a.len() implies a[j] == x[j] by {
                        assert(a[j] == (Prop { key: out@[j].key@, value: out@[j].value@ }));
                    }
                    assert(a =~= x);
                }
                r
            },
        }
    }

    /// Whether two values are the same JSON value.
    pub fn same(&self, other: &JsonValue) -> (r: bool)
        ensures
            r == (self@ == other@),
        decreases self,
    {
        match (self, other) {
            (JsonValue::Null, JsonValue::Null) => true,
            (JsonValue::Bool(a), JsonValue::Bool(b)) => *a == *b,
            (JsonValue::Int(a), JsonValue::Int(b)) => *a == *b,
            (JsonValue::UInt(a), JsonValue::UInt(b)) => *a == *b,
            (JsonValue::Float(a), JsonValue::Float(b)) => a.eq(b),
            (JsonValue::Str(a), JsonValue::Str(b)) => a.eq(b),
            (JsonValue::Array(a), JsonValue::Array(b)) => {
                if a.len() != b.len() {
                    proof {
                        if let Json::Array(x) = self@ {
                            if let Json::Array(y) = other@ {
                                assert(x.len() != y.len());
                            }
                        }
                    }
                    return false;
                }
                let ghost x = match self@ { Json::Array(x) => x, _ => Seq::empty() };
                let ghost y = match other@ { Json::Array(y) => y, _ => Seq::empty() };
                let mut i: usize = 0;
                while i < a.len()
                    invariant
                        i <= a.len(),
                        a.len() == b.len(),
                        *self == JsonValue::Array(*a),
                        self@ == Json::Array(x),
                        other@ == Json::Array(y),
                        x.len() == a.len(),
                        y.len() == b.len(),
                        forall|j: int| 0 <= j < a.len() ==> #[trigger] x[j] == a@[j]@,
                        forall|j: int| 0 <= j < b.len() ==> #[trigger] y[j] == b@[j]@,
                        forall|j: int| 0 <= j < i ==> #[trigger] x[j] == y[j],
                    decreases a.len() - i,
                {
                    proof { assert(decreases_to!(a => a@[i as int])); }
                    if !a[i].same(&b[i]) {
                        proof { assert(x[i as int] != y[i as int]); }
                        return false;
                    }
                    i = i + 1;
                }
                proof { assert(x =~= y); }
                true
            },
            (JsonValue::Object(a), JsonValue::Object(b)) => {
                if a.len() != b.len() {
                    proof {
                        if let Json::Object(x) = self@ {
                            if let Json::Object(y) = other@ {
                                assert(x.len() != y.len());
                            }
                        }
                    }
                    return false;
                }
                let ghost x = match self@ { Json::Object(x) => x, _ => Seq::empty() };
                let ghost y = match other@ { Json::Object(y) => y, _ => Seq::empty() };
                let mut i: usize = 0;
                while i < a.len()
                    invariant
                        i <= a.len(),
                        a.len() == b.len(),
                        *self == JsonValue::Object(*a),
                        self@ == Json::Object(x),
                        other@ == Json::Object(y),
                        x.len() == a.len(),
                        y.len() == b.len(),
                        forall|j: int| 0 <= j < a.len() ==> #[trigger] x[j] == (Prop { key: a@[j].key@, value: a@[j].value@ }),
                        forall|j: int| 0 <= j < b.len() ==> #[trigger] y[j] == (Prop { key: b@[j].key@, value: b@[j].value@ }),
                        forall|j: int| 0 <= j < i ==> #[trigger] x[j] == y[j],
                    decreases a.len() - i,
                {
                    proof {
                        assert(decreases_to!(a => a@[i as int]));
                        assert(decreases_to!(a@[i as int] => a@[i as int].value));
                    }
                    if !a[i].key.eq(&b[i].key) || !a[i].value.same(&b[i].value) {
                        proof { assert(x[i as int] != y[i as int]); }
                        return false;
                    }
                    i = i + 1;
                }
                proof { assert(x =~= y); }
                true
            },
            _ => false,
        }
    }

    pub fn is_null(&self) -> (r: bool)
        ensures
            r == (self@ is Null),
    {
        match self {
            JsonValue::Null => true,
            _ => false,
        }
    }

    /// The type name used in error reports.
    pub fn kind_name(&self) -> (r: &'static str)
        ensures
            r@ == kind_name(self@),
    {
        proof {
            reveal_strlit("null");
            reveal_strlit("boolean");
            reveal_strlit("number");
            reveal_strlit("string");
            reveal_strlit("array");
            reveal_strlit("object");
        }
        match self {
            JsonValue::Null => "null",
            JsonValue::Bool(_) => "boolean",
            JsonValue::Int(_) | JsonValue::UInt(_) | JsonValue::Float(_) => "number",
            JsonValue::Str(_) => "string",
            JsonValue::Array(_) => "array",
            JsonValue::Object(_) => "object",
        }
    }

    /// The value under `key`, when this value is an object that has it.
    pub fn get(&self, key: &str) -> (r: Option<&JsonValue>)
        ensures
            r is None <==> field_of(self@, key@) is None,
            r is Some ==> field_of(self@, key@) == Some(r->Some_0@),
    {
        match self {
            JsonValue::Object(entries) => {
                let ghost es = match self@ { Json::Object(es) => es, _ => Seq::empty() };
                let mut i: usize = 0;
                while i < entries.len()
                    invariant
                        i <= entries.len(),
                        self@ == Json::Object(es),
                        es.len() == entries.len(),
                        forall|j: int| 0 <= j < entries.len() ==> #[trigger] es[j] == (Prop { key: entries@[j].key@, value: entries@[j].value@ }),
                        entry_index(es.subrange(0, i as int), key@) is None,
                    decreases entries.len() - i,
                {
                    let ghost pre = es.subrange(0, i as int);
                    proof { assert(es.subrange(0, i + 1).drop_last() =~= pre); }
                    if crate::text::text_eq(entries[i].key.as_str(), key) {
                        proof {
                            assert(entry_index(es.subrange(0, i + 1), key@) == Some(i as int));
                            lemma_entry_index_prefix(es, key@, i + 1);
                        }
                        return Some(&entries[i].value);
                    }
                    i = i + 1;
                }
                proof { assert(es.subrange(0, i as int) =~= es); }
                None
            },
            _ => None,
        }
    }
}

} // verus!
