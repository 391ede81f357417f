//! Properties of validation that hold for every input.

use vstd::prelude::*;
use crate::error::ErrorModel;
use crate::json::Json;
use crate::path::Seg;
use crate::schema::combinators::CombinatorSchema;
use crate::registry::{SchemaRegistry, lookup};
use crate::schema::node::{Env, SchemaNode, accepting, budget, combinator_outcome, fields_acc, outcome};
use crate::schema::ref_schema::RefSchema;
use crate::schema::numeric::{IntegerSchema, integer_outcome, opt_seq};
use crate::schema::object::FieldDef;
use crate::schema::string::{StringConstraint, str_violation, str_violations};

verus! {

/// A value that is not a number fails an integer schema with exactly one
/// `invalid_type` error, whatever constraints the schema has.
pub proof fn lemma_integer_type_failure_is_single(s: IntegerSchema, v: Json, path: Seq<Seg>)
    requires
        !(v is Int || v is UInt || v is Float),
    ensures
        integer_outcome(s, v, path) is Failure,
        integer_outcome(s, v, path)->Failure_0.len() == 1,
        integer_outcome(s, v, path)->Failure_0[0].code == "invalid_type"@,
{
}

/// Every constraint a string breaks contributes its own error: checking
/// stops at no violation.
pub proof fn lemma_every_violation_reported(cs: Seq<StringConstraint>, s: Seq<char>, path: Seq<Seg>, i: int)
    requires
        0 <= i < cs.len(),
        str_violation(cs[i], s, path) is Some,
    ensures
        str_violations(cs, s, path).contains(str_violation(cs[i], s, path)->Some_0),
    decreases cs.len(),
{
    let e = str_violation(cs[i], s, path)->Some_0;
    let prev = str_violations(cs.drop_last(), s, path);
    if i == cs.len() - 1 {
        let all = prev + opt_seq(str_violation(cs.last(), s, path));
        assert(all[prev.len() as int] == e);
    } else {
        assert(cs.drop_last()[i] == cs[i]);
        lemma_every_violation_reported(cs.drop_last(), s, path, i);
        let j = choose|j: int| 0 <= j < prev.len() && prev[j] == e;
        let all = prev + opt_seq(str_violation(cs.last(), s, path));
        assert(all[j] == e);
    }
}

/// When two or more components accept the value, one-of fails with a single
/// `one_of_multiple_matched` error; when none does, with a single
/// `one_of_none_matched` error.
pub proof fn lemma_one_of_needs_exactly_one(schemas: Vec<SchemaNode>, v: Json, path: Seq<Seg>, env: Option<Env>)
    ensures
        accepting(schemas, v, path, env, schemas.len() as int).len() >= 2 ==> {
            let r = combinator_outcome(CombinatorSchema::OneOf(schemas), v, path, env);
            &&& r is Failure
            &&& r->Failure_0.len() == 1
            &&& r->Failure_0[0].code == "one_of_multiple_matched"@
        },
        accepting(schemas, v, path, env, schemas.len() as int).len() == 0 ==> {
            let r = combinator_outcome(CombinatorSchema::OneOf(schemas), v, path, env);
            &&& r is Failure
            &&& r->Failure_0.len() == 1
            &&& r->Failure_0[0].code == "one_of_none_matched"@
        },
{
}

/// Following a reference at the depth limit fails with
/// `max_depth_exceeded`, so no chain of references runs past the limit.
pub proof fn lemma_reference_at_limit_fails(node: SchemaNode, v: Json, path: Seq<Seg>, env: Env)
    requires
        node is Ref,
        env.depth >= env.max_depth,
    ensures
        outcome(node, v, path, Some(env)) is Failure,
        outcome(node, v, path, Some(env))->Failure_0.len() == 1,
        outcome(node, v, path, Some(env))->Failure_0[0].code == "max_depth_exceeded"@,
{
}

/// The `required` errors of the first `n` fields for an input that has none
/// of them, in declaration order.
pub open spec fn missing_errors(fields: Seq<FieldDef>, path: Seq<Seg>, n: int) -> Seq<ErrorModel>
    decreases n,
{
    if n <= 0 {
        Seq::empty()
    } else {
        let prev = missing_errors(fields, path, n - 1);
        let f = fields[n - 1];
        if f.required {
            prev.push(ErrorModel {
                path: path.push(Seg::Field(f.name@)),
                message: "required field '"@ + f.name@ + "' is missing"@,
                got: None,
                expected: Some("value"@),
                code: "required"@,
            })
        } else {
            prev
        }
    }
}

/// Against an empty object, the field errors are the `required` errors of
/// the required fields, in the order the fields were declared.
pub proof fn lemma_missing_fields_in_declaration_order(fields: Vec<FieldDef>, path: Seq<Seg>, env: Option<Env>, n: int)
    requires
        0 <= n <= fields.len(),
    ensures
        fields_acc(fields, Json::Object(Seq::empty()), path, env, n).errors == missing_errors(fields@, path, n),
    decreases n,
{
    if n > 0 {
        lemma_missing_fields_in_declaration_order(fields, path, env, n - 1);
        let f = fields@[n - 1];
        assert(crate::json::entry_index(Seq::<crate::json::Prop>::empty(), f.name@) is None);
    }
}

/// Validation through the registry is bounded by reference hops: it starts
/// with a budget of `max_depth` hops; following a reference below the limit
/// validates the named schema against the same value and path with exactly
/// one hop less; at the limit a reference fails. Object fields, array items
/// and combinator components pass the budget on unchanged (see `outcome`).
/// So along any chain of calls at most `max_depth` references are followed,
/// whatever cycles the registered schemas form, directly, mutually, through
/// arrays or through combinators; and `outcome` is proved to terminate by
/// that budget first and the schema's structure second.
pub proof fn lemma_reference_hops_are_bounded(registry: SchemaRegistry, r: RefSchema, v: Json, path: Seq<Seg>, e: Env)
    requires
        e.registry == registry,
    ensures
        budget(Some(Env { registry, depth: 0, max_depth: registry.max_depth as nat })) == registry.max_depth,
        e.depth < e.max_depth && lookup(registry.entries@, r.name@) is Some ==> {
            let deeper = Env { registry, depth: e.depth + 1, max_depth: e.max_depth };
            &&& outcome(SchemaNode::Ref(r), v, path, Some(e))
                == outcome(lookup(registry.entries@, r.name@)->Some_0, v, path, Some(deeper))
            &&& budget(Some(deeper)) + 1 == budget(Some(e))
        },
        e.depth >= e.max_depth ==> outcome(SchemaNode::Ref(r), v, path, Some(e)) is Failure
            && outcome(SchemaNode::Ref(r), v, path, Some(e))->Failure_0[0].code == "max_depth_exceeded"@,
{
}

} // verus!
