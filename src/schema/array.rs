//! Array schemas: length constraints, per-item validation and uniqueness.

use vstd::prelude::*;
use crate::error::{ErrorModel, SchemaError, full_error};
use crate::json::{Json, JsonValue, field_of};
use crate::path::{JsonPath, Seg};
use crate::error::opt_view;
use crate::schema::node::{SchemaLike, SchemaNode};
use crate::schema::numeric::{msg_or, message_or, opt_seq, type_error};
use crate::text::{nat_text, push_decimal};

verus! {

/// One array constraint, with an optional message that replaces the default one.
pub enum ArrayConstraint {
    MinLength { min: usize, message: Option<String> },
    MaxLength { max: usize, message: Option<String> },
    /// No two items may be equal.
    Unique { message: Option<String> },
    /// No two items may hold equal values under `key` (a missing key counts as null).
    UniqueBy { key: String, message: Option<String> },
}

/// A schema for arrays whose items all meet one schema.
pub struct ArraySchema {
    pub items: Box<SchemaNode>,
    pub constraints: Vec<ArrayConstraint>,
    pub type_error_message: Option<String>,
}

/// The error a length constraint reports for an array of `len` items.
pub open spec fn length_violation(c: ArrayConstraint, len: nat, path: Seq<Seg>) -> Option<ErrorModel> {
    match c {
        ArrayConstraint::MinLength { min, message } => if len < min {
            Some(full_error(path, msg_or(message, "array must have at least "@ + nat_text(min as nat) + " items, got "@ + nat_text(len)),
                "min_length"@, nat_text(len) + " items"@, "at least "@ + nat_text(min as nat) + " items"@))
        } else {
            None
        },
        ArrayConstraint::MaxLength { max, message } => if len > max {
            Some(full_error(path, msg_or(message, "array must have at most "@ + nat_text(max as nat) + " items, got "@ + nat_text(len)),
                "max_length"@, nat_text(len) + " items"@, "at most "@ + nat_text(max as nat) + " items"@))
        } else {
            None
        },
        _ => None,
    }
}

/// Every length violation, in constraint order.
pub open spec fn length_violations(cs: Seq<ArrayConstraint>, len: nat, path: Seq<Seg>) -> Seq<ErrorModel>
    decreases cs.len(),
{
    if cs.len() == 0 {
        Seq::empty()
    } else {
        length_violations(cs.drop_last(), len, path) + opt_seq(length_violation(cs.last(), len, path))
    }
}

/// The key an item is compared by: the item itself, or its value under `key`.
pub open spec fn item_key(by: Option<Seq<char>>, item: Json) -> Json {
    match by {
        None => item,
        Some(k) => match field_of(item, k) {
            Some(v) => v,
            None => Json::Null,
        },
    }
}

/// The positions among the first `n` keys that hold `k`.
pub open spec fn positions_of(keys: Seq<Json>, k: Json, n: int) -> Seq<nat>
    decreases n,
{
    if n <= 0 {
        Seq::empty()
    } else if keys[n - 1] == k {
        positions_of(keys, k, n - 1).push((n - 1) as nat)
    } else {
        positions_of(keys, k, n - 1)
    }
}

/// Whether no key before position `i` equals the one at `i`.
pub open spec fn first_at(keys: Seq<Json>, i: int) -> bool {
    forall|j: int| 0 <= j < i ==> keys[j] != keys[i]
}

/// `[0, 2]`: the positions in brackets, separated by `, `.
pub open spec fn index_list(ix: Seq<nat>) -> Seq<char> {
    "["@ + index_items(ix) + "]"@
}

pub open spec fn index_items(ix: Seq<nat>) -> Seq<char>
    decreases ix.len(),
{
    if ix.len() == 0 {
        Seq::empty()
    } else if ix.len() == 1 {
        nat_text(ix[0])
    } else {
        index_items(ix.drop_last()) + ", "@ + nat_text(ix.last())
    }
}

/// The error for one group of equal keys.
pub open spec fn duplicate_error(by: Option<Seq<char>>, message: Option<String>, ix: Seq<nat>, path: Seq<Seg>) -> ErrorModel {
    ErrorModel {
        path,
        message: msg_or(message, (if by is None { "duplicate value at indices "@ } else { "duplicate key at indices "@ }) + index_list(ix)),
        got: Some("duplicates at indices "@ + index_list(ix)),
        expected: None,
        code: "unique"@,
    }
}

/// One error per group of two or more equal keys, in order of each group's
/// first position, considering the first `n` positions as group starts.
pub open spec fn duplicate_errors(keys: Seq<Json>, by: Option<Seq<char>>, message: Option<String>, path: Seq<Seg>, n: int) -> Seq<ErrorModel>
    decreases n,
{
    if n <= 0 {
        Seq::empty()
    } else {
        let prev = duplicate_errors(keys, by, message, path, n - 1);
        let ix = positions_of(keys, keys[n - 1], keys.len() as int);
        if first_at(keys, n - 1) && ix.len() > 1 {
            prev.push(duplicate_error(by, message, ix, path))
        } else {
            prev
        }
    }
}

/// The keys of the items under a uniqueness constraint.
pub open spec fn keys_of(by: Option<Seq<char>>, items: Seq<Json>) -> Seq<Json> {
    Seq::new(items.len(), |i: int| item_key(by, items[i]))
}

/// What a uniqueness constraint compares items by; `None` for other constraints.
pub open spec fn unique_by(c: ArrayConstraint) -> Option<Option<Seq<char>>> {
    match c {
        ArrayConstraint::Unique { .. } => Some(None),
        ArrayConstraint::UniqueBy { key, .. } => Some(Some(key@)),
        _ => None,
    }
}

pub open spec fn constraint_message(c: ArrayConstraint) -> Option<String> {
    match c {
        ArrayConstraint::MinLength { message, .. } => message,
        ArrayConstraint::MaxLength { message, .. } => message,
        ArrayConstraint::Unique { message } => message,
        ArrayConstraint::UniqueBy { message, .. } => message,
    }
}

/// The errors of one constraint about duplicates among the items.
pub open spec fn uniqueness_violation(c: ArrayConstraint, items: Seq<Json>, path: Seq<Seg>) -> Seq<ErrorModel> {
    match unique_by(c) {
        Some(by) => duplicate_errors(keys_of(by, items), by, constraint_message(c), path, items.len() as int),
        None => Seq::empty(),
    }
}

/// The uniqueness errors of all constraints, in constraint order.
pub open spec fn uniqueness_violations(cs: Seq<ArrayConstraint>, items: Seq<Json>, path: Seq<Seg>) -> Seq<ErrorModel>
    decreases cs.len(),
{
    if cs.len() == 0 {
        Seq::empty()
    } else {
        uniqueness_violations(cs.drop_last(), items, path) + uniqueness_violation(cs.last(), items, path)
    }
}

/// The error a length constraint reports for an array of `len` items, if any.
pub fn check_length(c: &ArrayConstraint, len: usize, path: &JsonPath) -> (r: Option<SchemaError>)
    ensures
        match r {
            Some(e) => length_violation(*c, len as nat, path@) == Some(e@),
            None => length_violation(*c, len as nat, path@) is None,
        },
{
    proof {
        reveal_strlit("array must have at least ");
        reveal_strlit("array must have at most ");
        reveal_strlit(" items, got ");
        reveal_strlit(" items");
        reveal_strlit("at least ");
        reveal_strlit("at most ");
    }
    let mut got = String::new();
    push_decimal(&mut got, len as u64);
    got.append(" items");
    proof { assert(got@ =~= nat_text(len as nat) + " items"@); }
    match c {
        ArrayConstraint::MinLength { min, message } => {
            if len < *min {
                let mut d = String::from_str("array must have at least ");
                push_decimal(&mut d, *min as u64);
                d.append(" items, got ");
                push_decimal(&mut d, len as u64);
                let mut x = String::from_str("at least ");
                push_decimal(&mut x, *min as u64);
                x.append(" items");
                Some(type_error(path, message_or(message, d), "min_length", got.as_str(), x.as_str()))
            } else {
                None
            }
        },
        ArrayConstraint::MaxLength { max, message } => {
            if len > *max {
                let mut d = String::from_str("array must have at most ");
                push_decimal(&mut d, *max as u64);
                d.append(" items, got ");
                push_decimal(&mut d, len as u64);
                let mut x = String::from_str("at most ");
                push_decimal(&mut x, *max as u64);
                x.append(" items");
                Some(type_error(path, message_or(message, d), "max_length", got.as_str(), x.as_str()))
            } else {
                None
            }
        },
        _ => None,
    }
}

/// The text of a list of positions: `[0, 2]`.
pub(crate) fn push_index_list(out: &mut String, ix: &Vec<usize>)
    ensures
        final(out)@ == old(out)@ + index_list(Seq::new(ix@.len(), |i: int| ix@[i] as nat)),
{
    proof {
        reveal_strlit("[");
        reveal_strlit("]");
        reveal_strlit(", ");
    }
    let ghost start = out@;
    let ghost all = Seq::new(ix@.len(), |i: int| ix@[i] as nat);
    out.append("[");
    let mut i: usize = 0;
    while i < ix.len()
        invariant
            i <= ix.len(),
            all == Seq::new(ix@.len(), |i: int| ix@[i] as nat),
            out@ == start + "["@ + index_items(all.subrange(0, i as int)),
        decreases ix.len() - i,
    {
        proof {
            assert(all.subrange(0, i + 1).drop_last() =~= all.subrange(0, i as int));
        }
        if i > 0 {
            out.append(", ");
        }
        push_decimal(out, ix[i] as u64);
        i = i + 1;
        proof {
            if i == 1 {
                assert(all.subrange(0, 1) =~= seq![all[0]]);
            }
            assert(out@ =~= start + "["@ + index_items(all.subrange(0, i as int)));
        }
    }
    out.append("]");
    proof { assert(all.subrange(0, i as int) =~= all); }
}

/// The key of an item, as a uniqueness constraint compares it.
fn key_value(by: &Option<String>, item: &JsonValue) -> (r: JsonValue)
    ensures
        r@ == item_key(match by { Some(k) => Some(k@), None => None }, item@),
{
    match by {
        None => item.copy(),
        Some(k) => match item.get(k.as_str()) {
            Some(v) => v.copy(),
            None => JsonValue::Null,
        },
    }
}

/// One error per group of equal keys among the items, groups in order of
/// their first position.
pub fn duplicates(items: &Vec<JsonValue>, by: &Option<String>, message: &Option<String>, path: &JsonPath) -> (r: Vec<SchemaError>)
    ensures
        crate::error::errs_view(r@) == duplicate_errors(
            keys_of(match by { Some(k) => Some(k@), None => None }, Seq::new(items@.len(), |i: int| items@[i]@)),
            match by { Some(k) => Some(k@), None => None },
            *message,
            path@,
            items@.len() as int,
        ),
{
    proof {
        reveal_strlit("duplicate value at indices ");
        reveal_strlit("duplicate key at indices ");
        reveal_strlit("duplicates at indices ");
        reveal_strlit("unique");
    }
    let ghost b = match by { Some(k) => Some(k@), None => None };
    let ghost views = Seq::new(items@.len(), |i: int| items@[i]@);
    let ghost keys = keys_of(b, views);
    let mut ks: Vec<JsonValue> = Vec::new();
    let mut i: usize = 0;
    while i < items.len()
        invariant
            i <= items.len(),
            ks@.len() == i,
            keys == keys_of(b, views),
            views == Seq::new(items@.len(), |i: int| items@[i]@),
            b == (match by { Some(k) => Some(k@), None => None }),
            forall|j: int| 0 <= j < i ==> #[trigger] ks@[j]@ == keys[j],
        decreases items.len() - i,
    {
        ks.push(key_value(by, &items[i]));
        i = i + 1;
    }
    let n = ks.len();
    let mut errors: Vec<SchemaError> = Vec::new();
    let mut i: usize = 0;
    while i < n
        invariant
            n == ks@.len(),
            n == keys.len(),
            i <= n,
            forall|j: int| 0 <= j < n ==> #[trigger] ks@[j]@ == keys[j],
            b == (match by { Some(k) => Some(k@), None => None }),
            crate::error::errs_view(errors@) == duplicate_errors(keys, b, *message, path@, i as int),
        decreases n - i,
    {
        // Is position i the first with its key?
        let mut first = true;
        let mut j: usize = 0;
        while j < i
            invariant
                j <= i < n,
                n == ks@.len(),
                n == keys.len(),
                forall|q: int| 0 <= q < n ==> #[trigger] ks@[q]@ == keys[q],
                first == (forall|q: int| 0 <= q < j ==> keys[q] != keys[i as int]),
            decreases i - j,
        {
            if ks[j].same(&ks[i]) {
                first = false;
            }
            j = j + 1;
        }
        // All positions with the same key.
        let mut ix: Vec<usize> = Vec::new();
        let mut q: usize = 0;
        while q < n
            invariant
                i < n,
                q <= n,
                n == ks@.len(),
                n == keys.len(),
                forall|t: int| 0 <= t < n ==> #[trigger] ks@[t]@ == keys[t],
                Seq::new(ix@.len(), |t: int| ix@[t] as nat) == positions_of(keys, keys[i as int], q as int),
            decreases n - q,
        {
            if ks[q].same(&ks[i]) {
                let ghost before = ix@;
                ix.push(q);
                proof {
                    assert(Seq::new(ix@.len(), |t: int| ix@[t] as nat) =~= Seq::new(before.len(), |t: int| before[t] as nat).push(q as nat));
                }
            }
            q = q + 1;
        }
        let ghost pos = positions_of(keys, keys[i as int], n as int);
        if first && ix.len() > 1 {
            let mut m = if by.is_none() {
                String::from_str("duplicate value at indices ")
            } else {
                String::from_str("duplicate key at indices ")
            };
            push_index_list(&mut m, &ix);
            let mut got = String::from_str("duplicates at indices ");
            push_index_list(&mut got, &ix);
            let e = SchemaError::with_message(path.copy(), message_or(message, m)).with_code("unique").with_got(got.as_str());
            proof {
                let ixs = Seq::new(ix@.len(), |t: int| ix@[t] as nat);
                assert(ixs == pos);
                assert(first_at(keys, i as int));
                assert(e@.message == msg_or(*message, (if b is None { "duplicate value at indices "@ } else { "duplicate key at indices "@ }) + index_list(pos)));
                assert(e@ == duplicate_error(b, *message, pos, path@));
            }
            errors.push(e);
            proof {
                assert(crate::error::errs_view(errors@) =~= duplicate_errors(keys, b, *message, path@, i + 1));
            }
        } else {
            proof {
                assert(Seq::new(ix@.len(), |t: int| ix@[t] as nat).len() == ix@.len());
                assert(crate::error::errs_view(errors@) =~= duplicate_errors(keys, b, *message, path@, i + 1));
            }
        }
        i = i + 1;
    }
    errors
}

/// Whether two constraints are the same rule, messages aside.
pub open spec fn same_array_rule(c: ArrayConstraint, d: ArrayConstraint) -> bool {
    match (c, d) {
        (ArrayConstraint::MinLength { min: a, .. }, ArrayConstraint::MinLength { min: b, .. }) => a == b,
        (ArrayConstraint::MaxLength { max: a, .. }, ArrayConstraint::MaxLength { max: b, .. }) => a == b,
        (ArrayConstraint::Unique { .. }, ArrayConstraint::Unique { .. }) => true,
        (ArrayConstraint::UniqueBy { key: a, .. }, ArrayConstraint::UniqueBy { key: b, .. }) => a == b,
        _ => false,
    }
}

impl ArraySchema {
    pub fn new<S: SchemaLike>(items: S) -> (r: ArraySchema)
        ensures
            *r.items == items.node(),
            r.constraints@.len() == 0,
            r.type_error_message is None,
    {
        ArraySchema { items: Box::new(items.into_node()), constraints: Vec::new(), type_error_message: None }
    }

    fn with_constraint(self, c: ArrayConstraint) -> (r: ArraySchema)
        ensures
            r.constraints@ == self.constraints@.push(c),
            r.items == self.items,
            r.type_error_message == self.type_error_message,
    {
        let mut s = self;
        s.constraints.push(c);
        s
    }

    pub fn min_len(self, min: usize) -> (r: ArraySchema)
        ensures
            r.constraints@ == self.constraints@.push(ArrayConstraint::MinLength { min, message: None }),
            r.items == self.items,
            r.type_error_message == self.type_error_message,
    {
        self.with_constraint(ArrayConstraint::MinLength { min, message: None })
    }

    pub fn max_len(self, max: usize) -> (r: ArraySchema)
        ensures
            r.constraints@ == self.constraints@.push(ArrayConstraint::MaxLength { max, message: None }),
            r.items == self.items,
            r.type_error_message == self.type_error_message,
    {
        self.with_constraint(ArrayConstraint::MaxLength { max, message: None })
    }

    /// At least one item.
    pub fn non_empty(self) -> (r: ArraySchema)
        ensures
            r.constraints@ == self.constraints@.push(ArrayConstraint::MinLength { min: 1, message: None }),
            r.items == self.items,
            r.type_error_message == self.type_error_message,
    {
        self.min_len(1)
    }

    pub fn unique(self) -> (r: ArraySchema)
        ensures
            r.constraints@ == self.constraints@.push(ArrayConstraint::Unique { message: None }),
            r.items == self.items,
            r.type_error_message == self.type_error_message,
    {
        self.with_constraint(ArrayConstraint::Unique { message: None })
    }

    /// No two items may hold equal values under `key`; an item without the
    /// key counts as holding null.
    pub fn unique_by(self, key: &str) -> (r: ArraySchema)
        ensures
            r.constraints@.len() == self.constraints@.len() + 1,
            r.constraints@.drop_last() == self.constraints@,
            r.constraints@.last() matches ArrayConstraint::UniqueBy { key: k, message } && k@ == key@ && message is None,
            r.items == self.items,
            r.type_error_message == self.type_error_message,
    {
        let r = self.with_constraint(ArrayConstraint::UniqueBy { key: String::from_str(key), message: None });
        proof { assert(r.constraints@.drop_last() =~= self.constraints@); }
        r
    }

    /// Sets the message of the last constraint added, or of the type check
    /// when there is no constraint yet.
    pub fn error(self, message: &str) -> (r: ArraySchema)
        ensures
            r.items == self.items,
            self.constraints@.len() == 0 ==> r.constraints@ == self.constraints@
                && opt_view(r.type_error_message) == Some(message@),
            self.constraints@.len() > 0 ==> r.type_error_message == self.type_error_message
                && r.constraints@.len() == self.constraints@.len()
                && r.constraints@.drop_last() == self.constraints@.drop_last()
                && same_array_rule(r.constraints@.last(), self.constraints@.last())
                && opt_view(constraint_message(r.constraints@.last())) == Some(message@),
    {
        let mut s = self;
        let n = s.constraints.len();
        if n == 0 {
            s.type_error_message = Some(String::from_str(message));
            s
        } else {
            let last = s.constraints.pop().unwrap();
            let m = Some(String::from_str(message));
            let c = match last {
                ArrayConstraint::MinLength { min, .. } => ArrayConstraint::MinLength { min, message: m },
                ArrayConstraint::MaxLength { max, .. } => ArrayConstraint::MaxLength { max, message: m },
                ArrayConstraint::Unique { .. } => ArrayConstraint::Unique { message: m },
                ArrayConstraint::UniqueBy { key, .. } => ArrayConstraint::UniqueBy { key, message: m },
            };
            s.constraints.push(c);
            proof { assert(s.constraints@.drop_last() =~= self.constraints@.drop_last()); }
            s
        }
    }
}

} // verus!
