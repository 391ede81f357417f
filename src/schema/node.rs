//! Any schema, and validation through the whole schema tree.

use vstd::prelude::*;
use crate::error::{ErrorModel, SchemaError, SchemaErrors, Validation, errs_view, plain_error};
use crate::json::{Json, JsonValue, Member, Prop, field_of};
use crate::path::{JsonPath, Seg, path_text};
use crate::registry::{SchemaRegistry, lookup};
use crate::schema::array::{ArrayConstraint, ArraySchema, check_length, duplicates, length_violations,
    push_index_list, uniqueness_violations};
use crate::schema::combinators::CombinatorSchema;
use crate::schema::numeric::{IntegerSchema, integer_outcome, message_or, settle, type_error};
use crate::schema::object::{AdditionalProperties, FieldDef, ObjectSchema, check_rule, members_view, rule_violations};
use crate::schema::ref_schema::RefSchema;
use crate::schema::string::{StringSchema, string_outcome};
use crate::text::{nat_text, push_decimal};
use crate::validation::ValidationContext;

verus! {

broadcast use vstd::std_specs::vec::group_vec_axioms, vstd::seq::group_seq_axioms;

/// A schema of any kind.
pub enum SchemaNode {
    String(StringSchema),
    Integer(IntegerSchema),
    Object(ObjectSchema),
    Array(ArraySchema),
    Combinator(CombinatorSchema),
    Ref(RefSchema),
}

/// The outcome of validating a value: the validated value or every error.
pub type Outcome = Validation<Json, Seq<ErrorModel>>;

/// What reference resolution sees: the registry, the references followed so
/// far, and how many may be followed.
pub struct Env {
    pub registry: SchemaRegistry,
    pub depth: nat,
    pub max_depth: nat,
}

/// How many more references may be followed.
pub open spec fn budget(env: Option<Env>) -> nat {
    match env {
        Some(e) => if e.depth < e.max_depth { (e.max_depth - e.depth) as nat } else { 0 },
        None => 0,
    }
}

/// Errors and validated entries gathered so far.
pub struct Acc {
    pub errors: Seq<ErrorModel>,
    pub out: Seq<Prop>,
}

/// Errors, and the output of the last component that succeeded.
pub struct AllAcc {
    pub errors: Seq<ErrorModel>,
    pub last: Option<Json>,
}

/// Errors and validated items gathered so far.
pub struct ItemAcc {
    pub errors: Seq<ErrorModel>,
    pub out: Seq<Json>,
}

/// What `node` makes of `v` at `path`.
pub open spec fn outcome(node: SchemaNode, v: Json, path: Seq<Seg>, env: Option<Env>) -> Outcome
    decreases budget(env), node, 0nat,
{
    match node {
        SchemaNode::String(s) => match string_outcome(s, v, path) {
            Validation::Success(t) => Validation::Success(Json::Str(t)),
            Validation::Failure(e) => Validation::Failure(e),
        },
        SchemaNode::Integer(s) => match integer_outcome(s, v, path) {
            Validation::Success(n) => Validation::Success(Json::Int(n as int)),
            Validation::Failure(e) => Validation::Failure(e),
        },
        SchemaNode::Object(o) => object_outcome(o, v, path, env),
        SchemaNode::Array(a) => array_outcome(a, v, path, env),
        SchemaNode::Combinator(c) => combinator_outcome(c, v, path, env),
        // Without a registry a reference always fails; with one it fails at the
        // depth limit or on an unknown name, and otherwise validates against
        // the named schema one level deeper.
        SchemaNode::Ref(r) => {
            match env {
                None => Validation::Failure(seq![plain_error(path,
                    "reference to '"@ + r.name@ + "' cannot be validated without a registry. Use SchemaRegistry::validate() instead"@,
                    "missing_registry"@)]),
                Some(e) => if e.depth >= e.max_depth {
                    Validation::Failure(seq![plain_error(path,
                        "maximum reference depth "@ + nat_text(e.max_depth) + " exceeded at path '"@ + path_text(path) + "'"@,
                        "max_depth_exceeded"@)])
                } else {
                    match lookup(e.registry.entries@, r.name@) {
                        None => Validation::Failure(seq![plain_error(path,
                            "schema '"@ + r.name@ + "' not found in registry"@, "missing_reference"@)]),
                        Some(s) => outcome(s, v, path, Some(Env { registry: e.registry, depth: e.depth + 1, max_depth: e.max_depth })),
                    }
                },
            }
        },
    }
}

/// The failed type check of a container schema.
pub open spec fn container_type_error(message: Option<String>, default: Seq<char>, v: Json, expected: Seq<char>, path: Seq<Seg>) -> Outcome {
    Validation::Failure(seq![crate::error::full_error(path, crate::schema::numeric::msg_or(message, default),
        "invalid_type"@, crate::json::kind_name(v), expected)])
}

/// Whether a field of that name is declared.
pub open spec fn declared(fields: Seq<FieldDef>, name: Seq<char>) -> bool {
    exists|i: int| 0 <= i < fields.len() && (#[trigger] fields[i]).name@ == name
}

/// The declared fields among the first `n`, in order.
pub open spec fn fields_acc(fields: Vec<FieldDef>, v: Json, path: Seq<Seg>, env: Option<Env>, n: int) -> Acc
    decreases budget(env), fields, n,
{
    if n <= 0 || n > fields.len() {
        Acc { errors: Seq::empty(), out: Seq::empty() }
    } else {
        let prev = fields_acc(fields, v, path, env, n - 1);
        let f = fields@[n - 1];
        let fp = path.push(Seg::Field(f.name@));
        match field_of(v, f.name@) {
            Some(x) => match outcome(f.schema, x, fp, env) {
                Validation::Success(y) => Acc { errors: prev.errors, out: prev.out.push(Prop { key: f.name@, value: y }) },
                Validation::Failure(es) => Acc { errors: prev.errors + es, out: prev.out },
            },
            None => if f.required {
                Acc {
                    errors: prev.errors.push(ErrorModel {
                        path: fp,
                        message: "required field '"@ + f.name@ + "' is missing"@,
                        got: None,
                        expected: Some("value"@),
                        code: "required"@,
                    }),
                    out: prev.out,
                }
            } else {
                match f.default {
                    Some(d) => Acc { errors: prev.errors, out: prev.out.push(Prop { key: f.name@, value: d@ }) },
                    None => prev,
                }
            },
        }
    }
}

/// The undeclared entries among the first `n` of the input, by the policy.
pub open spec fn extras_acc(
    additional: AdditionalProperties,
    fields: Seq<FieldDef>,
    props: Seq<Prop>,
    path: Seq<Seg>,
    env: Option<Env>,
    n: int,
) -> Acc
    decreases budget(env), additional, n,
{
    if n <= 0 || n > props.len() {
        Acc { errors: Seq::empty(), out: Seq::empty() }
    } else {
        let prev = extras_acc(additional, fields, props, path, env, n - 1);
        let p = props[n - 1];
        let fp = path.push(Seg::Field(p.key));
        if declared(fields, p.key) {
            prev
        } else {
            match additional {
                AdditionalProperties::Allow => Acc { errors: prev.errors, out: prev.out.push(p) },
                AdditionalProperties::Deny => Acc {
                    errors: prev.errors.push(plain_error(fp, "unknown field '"@ + p.key + "'"@, "additional_property"@)),
                    out: prev.out,
                },
                AdditionalProperties::Validate(s) => match outcome(*s, p.value, fp, env) {
                    Validation::Success(y) => Acc { errors: prev.errors, out: prev.out.push(Prop { key: p.key, value: y }) },
                    Validation::Failure(es) => Acc { errors: prev.errors + es, out: prev.out },
                },
            }
        }
    }
}

/// What an object schema makes of a value.
pub open spec fn object_outcome(o: ObjectSchema, v: Json, path: Seq<Seg>, env: Option<Env>) -> Outcome
    decreases budget(env), o, 0nat,
{
    match v {
        Json::Object(props) => {
            let fa = fields_acc(o.fields, v, path, env, o.fields.len() as int);
            let ea = extras_acc(o.additional, o.fields@, props, path, env, props.len() as int);
            let errors = fa.errors + ea.errors;
            let out = fa.out + ea.out;
            let all = if !o.skip_on_field_errors || errors.len() == 0 {
                errors + rule_violations(o.rules@, out, path)
            } else {
                errors
            };
            settle(all, Json::Object(out))
        },
        _ => container_type_error(o.type_error_message, "expected object"@, v, "object"@, path),
    }
}

/// The items among the first `n`, each against the item schema.
pub open spec fn items_acc(item: SchemaNode, items: Seq<Json>, path: Seq<Seg>, env: Option<Env>, n: int) -> ItemAcc
    decreases budget(env), item, n,
{
    if n <= 0 || n > items.len() {
        ItemAcc { errors: Seq::empty(), out: Seq::empty() }
    } else {
        let prev = items_acc(item, items, path, env, n - 1);
        match outcome(item, items[n - 1], path.push(Seg::Index((n - 1) as nat)), env) {
            Validation::Success(y) => ItemAcc { errors: prev.errors, out: prev.out.push(y) },
            Validation::Failure(es) => ItemAcc { errors: prev.errors + es, out: prev.out },
        }
    }
}

/// What an array schema makes of a value: length errors, then item errors,
/// then duplicate errors.
pub open spec fn array_outcome(a: ArraySchema, v: Json, path: Seq<Seg>, env: Option<Env>) -> Outcome
    decreases budget(env), a, 0nat,
{
    match v {
        Json::Array(items) => {
            let ia = items_acc(*a.items, items, path, env, items.len() as int);
            let errors = length_violations(a.constraints@, items.len(), path) + ia.errors
                + uniqueness_violations(a.constraints@, items, path);
            settle(errors, Json::Array(ia.out))
        },
        _ => container_type_error(a.type_error_message, "expected array"@, v, "array"@, path),
    }
}

/// The positions among the first `n` components that accept the value.
pub open spec fn accepting(schemas: Vec<SchemaNode>, v: Json, path: Seq<Seg>, env: Option<Env>, n: int) -> Seq<nat>
    decreases budget(env), schemas, n,
{
    if n <= 0 || n > schemas.len() {
        Seq::empty()
    } else {
        let prev = accepting(schemas, v, path, env, n - 1);
        if outcome(schemas@[n - 1], v, path, env) is Success {
            prev.push((n - 1) as nat)
        } else {
            prev
        }
    }
}

/// The output of the first of the first `n` components that accepts the value.
pub open spec fn first_accepted(schemas: Vec<SchemaNode>, v: Json, path: Seq<Seg>, env: Option<Env>, n: int) -> Option<Json>
    decreases budget(env), schemas, n,
{
    if n <= 0 || n > schemas.len() {
        None
    } else {
        match first_accepted(schemas, v, path, env, n - 1) {
            Some(y) => Some(y),
            None => match outcome(schemas@[n - 1], v, path, env) {
                Validation::Success(y) => Some(y),
                Validation::Failure(_) => None,
            },
        }
    }
}

/// The errors of the first `n` components, and the output of the last that succeeded.
pub open spec fn all_acc(schemas: Vec<SchemaNode>, v: Json, path: Seq<Seg>, env: Option<Env>, n: int) -> AllAcc
    decreases budget(env), schemas, n,
{
    if n <= 0 || n > schemas.len() {
        AllAcc { errors: Seq::empty(), last: None }
    } else {
        let prev = all_acc(schemas, v, path, env, n - 1);
        match outcome(schemas@[n - 1], v, path, env) {
            Validation::Success(y) => AllAcc { errors: prev.errors, last: Some(y) },
            Validation::Failure(es) => AllAcc { errors: prev.errors + es, last: prev.last },
        }
    }
}

/// `[0, 2]`: positions in brackets, separated by `, `.
pub open spec fn positions_text(ix: Seq<nat>) -> Seq<char> {
    crate::schema::array::index_list(ix)
}

/// What a composed schema makes of a value.
pub open spec fn combinator_outcome(c: CombinatorSchema, v: Json, path: Seq<Seg>, env: Option<Env>) -> Outcome
    decreases budget(env), c, 0nat,
{
    match c {
        CombinatorSchema::OneOf(schemas) => {
            let ok = accepting(schemas, v, path, env, schemas.len() as int);
            if ok.len() == 0 {
                Validation::Failure(seq![plain_error(path,
                    "value did not match any of "@ + nat_text(schemas.len() as nat) + " schemas"@, "one_of_none_matched"@)])
            } else if ok.len() == 1 {
                match first_accepted(schemas, v, path, env, schemas.len() as int) {
                    Some(y) => Validation::Success(y),
                    None => Validation::Success(v),
                }
            } else {
                Validation::Failure(seq![plain_error(path,
                    "value matched "@ + nat_text(ok.len()) + " schemas (indices "@ + positions_text(ok) + "), expected exactly one"@,
                    "one_of_multiple_matched"@)])
            }
        },
        CombinatorSchema::AnyOf(schemas) => match first_accepted(schemas, v, path, env, schemas.len() as int) {
            Some(y) => Validation::Success(y),
            None => Validation::Failure(seq![plain_error(path,
                "value did not match any of "@ + nat_text(schemas.len() as nat) + " schemas"@, "any_of_none_matched"@)]),
        },
        CombinatorSchema::AllOf(schemas) => {
            let acc = all_acc(schemas, v, path, env, schemas.len() as int);
            if acc.errors.len() == 0 {
                match acc.last {
                    Some(y) => Validation::Success(y),
                    None => Validation::Success(v),
                }
            } else {
                Validation::Failure(acc.errors)
            }
        },
        CombinatorSchema::Optional(inner) => if v is Null {
            Validation::Success(Json::Null)
        } else {
            outcome(*inner, v, path, env)
        },
    }
}

/// The environment a context describes.
pub open spec fn env_of(ctx: Option<&ValidationContext>) -> Option<Env> {
    match ctx {
        Some(c) => Some(Env { registry: *c.registry, depth: c.depth as nat, max_depth: c.max_depth as nat }),
        None => None,
    }
}

/// Appends the errors of a failure, in order.
fn absorb(errors: &mut Vec<SchemaError>, es: SchemaErrors)
    ensures
        errs_view(final(errors)@) == errs_view(old(errors)@) + es@,
{
    let mut more = es.into_vec();
    let ghost a = errors@;
    let ghost b = more@;
    errors.append(&mut more);
    proof { assert(errs_view(a + b) =~= errs_view(a) + errs_view(b)); }
}

/// Success with `v` when there are no errors, else failure with all of them.
fn conclude(errors: Vec<SchemaError>, v: JsonValue) -> (r: Validation<JsonValue, SchemaErrors>)
    ensures
        r@ == settle(errs_view(errors@), v@),
{
    if errors.len() == 0 {
        Validation::Success(v)
    } else {
        Validation::Failure(SchemaErrors::from_vec(errors))
    }
}

/// The failure of a container's type check.
fn container_failure(message: &Option<String>, default: &str, v: &JsonValue, expected: &str, path: &JsonPath) -> (r: Validation<JsonValue, SchemaErrors>)
    ensures
        r@ == container_type_error(*message, default@, v@, expected@, path@),
{
    proof { reveal_strlit("invalid_type"); }
    let m = message_or(message, String::from_str(default));
    Validation::Failure(SchemaErrors::single(type_error(path, m, "invalid_type", v.kind_name(), expected)))
}

/// A failure with one error of the given message and code.
fn fail_with(path: &JsonPath, message: String, code: &str) -> (r: Validation<JsonValue, SchemaErrors>)
    ensures
        r@ == Validation::<Json, Seq<ErrorModel>>::Failure(seq![plain_error(path@, message@, code@)]),
{
    Validation::Failure(SchemaErrors::single(SchemaError::with_message(path.copy(), message).with_code(code)))
}

/// `before` + `middle` + `after`.
fn framed3(before: &str, middle: &str, after: &str) -> (r: String)
    ensures
        r@ == before@ + middle@ + after@,
{
    let mut out = String::from_str(before);
    out.append(middle);
    out.append(after);
    out
}

/// Whether a field of that name is declared.
fn is_declared(fields: &Vec<FieldDef>, name: &str) -> (r: bool)
    ensures
        r == declared(fields@, name@),
{
    let mut i: usize = 0;
    while i < fields.len()
        invariant
            i <= fields.len(),
            forall|j: int| 0 <= j < i ==> (#[trigger] fields@[j]).name@ != name@,
        decreases fields.len() - i,
    {
        if crate::text::text_eq(fields[i].name.as_str(), name) {
            return true;
        }
        i = i + 1;
    }
    false
}

/// Validates `v` against `node` at `path`. Without a context, references fail;
/// with one, they resolve through its registry up to its depth limit.
pub fn validate_node(node: &SchemaNode, v: &JsonValue, path: &JsonPath, ctx: Option<&ValidationContext>) -> (r: Validation<JsonValue, SchemaErrors>)
    ensures
        r@ == outcome(*node, v@, path@, env_of(ctx)),
    decreases budget(env_of(ctx)), *node, 0nat,
{
    match node {
        SchemaNode::String(s) => match s.validate(v, path) {
            Validation::Success(t) => Validation::Success(JsonValue::Str(t)),
            Validation::Failure(e) => Validation::Failure(e),
        },
        SchemaNode::Integer(s) => match s.validate(v, path) {
            Validation::Success(n) => Validation::Success(JsonValue::Int(n)),
            Validation::Failure(e) => Validation::Failure(e),
        },
        SchemaNode::Object(o) => validate_object(o, v, path, ctx),
        SchemaNode::Array(a) => validate_array(a, v, path, ctx),
        SchemaNode::Combinator(c) => validate_combinator(c, v, path, ctx),
        SchemaNode::Ref(r) => {
            proof {
                reveal_strlit("reference to '");
                reveal_strlit("' cannot be validated without a registry. Use SchemaRegistry::validate() instead");
                reveal_strlit("missing_registry");
                reveal_strlit("maximum reference depth ");
                reveal_strlit(" exceeded at path '");
                reveal_strlit("'");
                reveal_strlit("max_depth_exceeded");
                reveal_strlit("schema '");
                reveal_strlit("' not found in registry");
                reveal_strlit("missing_reference");
            }
            match ctx {
                None => {
                    let m = framed3("reference to '", r.name.as_str(), "' cannot be validated without a registry. Use SchemaRegistry::validate() instead");
                    fail_with(path, m, "missing_registry")
                },
                Some(c) => {
                    if c.depth >= c.max_depth {
                        let mut m = String::from_str("maximum reference depth ");
                        push_decimal(&mut m, c.max_depth as u64);
                        m.append(" exceeded at path '");
                        let p = path.to_string();
                        m.append(p.as_str());
                        m.append("'");
                        fail_with(path, m, "max_depth_exceeded")
                    } else {
                        match c.registry.find(r.name.as_str()) {
                            None => {
                                let m = framed3("schema '", r.name.as_str(), "' not found in registry");
                                fail_with(path, m, "missing_reference")
                            },
                            Some(s) => {
                                let deeper = c.increment_depth();
                                validate_node(s, v, path, Some(&deeper))
                            },
                        }
                    }
                },
            }
        },
    }
}

/// Validates `v` against an object schema.
pub fn validate_object(o: &ObjectSchema, v: &JsonValue, path: &JsonPath, ctx: Option<&ValidationContext>) -> (r: Validation<JsonValue, SchemaErrors>)
    ensures
        r@ == object_outcome(*o, v@, path@, env_of(ctx)),
    decreases budget(env_of(ctx)), *o, 0nat,
{
    proof {
        reveal_strlit("expected object");
        reveal_strlit("object");
        reveal_strlit("required field '");
        reveal_strlit("' is missing");
        reveal_strlit("required");
        reveal_strlit("value");
        reveal_strlit("unknown field '");
        reveal_strlit("'");
        reveal_strlit("additional_property");
    }
    let members = match v {
        JsonValue::Object(members) => members,
        _ => return container_failure(&o.type_error_message, "expected object", v, "object", path),
    };
    let ghost env = env_of(ctx);
    let ghost props = match v@ { Json::Object(p) => p, _ => Seq::empty() };
    proof { assert(props =~= members_view(members@)); }
    // Declared fields, in declaration order.
    let mut errors: Vec<SchemaError> = Vec::new();
    let mut out: Vec<Member> = Vec::new();
    let mut i: usize = 0;
    while i < o.fields.len()
        invariant
            i <= o.fields.len(),
            env == env_of(ctx),
            errs_view(errors@) == fields_acc(o.fields, v@, path@, env, i as int).errors,
            members_view(out@) == fields_acc(o.fields, v@, path@, env, i as int).out,
        decreases o.fields.len() - i,
    {
        let f = &o.fields[i];
        let fp = path.push_field(f.name.as_str());
        let ghost prev = fields_acc(o.fields, v@, path@, env, i as int);
        proof {
            assert(decreases_to!(*o => o.fields));
            assert(decreases_to!(o.fields => o.fields@[i as int]));
            assert(decreases_to!(o.fields@[i as int] => o.fields@[i as int].schema));
        }
        match v.get(f.name.as_str()) {
            Some(x) => {
                match validate_node(&f.schema, x, &fp, ctx) {
                    Validation::Success(y) => {
                        out.push(Member { key: f.name.clone(), value: y });
                        proof { assert(members_view(out@) =~= prev.out.push(Prop { key: f.name@, value: y@ })); }
                    },
                    Validation::Failure(es) => {
                        absorb(&mut errors, es);
                    },
                }
            },
            None => {
                if f.required {
                    let m = framed3("required field '", f.name.as_str(), "' is missing");
                    let e = SchemaError::with_message(fp, m).with_code("required").with_expected("value");
                    errors.push(e);
                    proof { assert(errs_view(errors@) =~= prev.errors.push(e@)); }
                } else {
                    match &f.default {
                        Some(d) => {
                            out.push(Member { key: f.name.clone(), value: d.copy() });
                            proof { assert(members_view(out@) =~= prev.out.push(Prop { key: f.name@, value: d@ })); }
                        },
                        None => {},
                    }
                }
            },
        }
        i = i + 1;
    }
    // Keys of the input that no field declares.
    let mut extra_errors: Vec<SchemaError> = Vec::new();
    let mut extra_out: Vec<Member> = Vec::new();
    let mut j: usize = 0;
    while j < members.len()
        invariant
            j <= members.len(),
            env == env_of(ctx),
            props == members_view(members@),
            errs_view(extra_errors@) == extras_acc(o.additional, o.fields@, props, path@, env, j as int).errors,
            members_view(extra_out@) == extras_acc(o.additional, o.fields@, props, path@, env, j as int).out,
        decreases members.len() - j,
    {
        let p = &members[j];
        let ghost prev = extras_acc(o.additional, o.fields@, props, path@, env, j as int);
        proof { assert(props[j as int] == (Prop { key: p.key@, value: p.value@ })); }
        if !is_declared(&o.fields, p.key.as_str()) {
            let fp = path.push_field(p.key.as_str());
            match &o.additional {
                AdditionalProperties::Allow => {
                    extra_out.push(Member { key: p.key.clone(), value: p.value.copy() });
                    proof { assert(members_view(extra_out@) =~= prev.out.push(props[j as int])); }
                },
                AdditionalProperties::Deny => {
                    let m = framed3("unknown field '", p.key.as_str(), "'");
                    let e = SchemaError::with_message(fp, m).with_code("additional_property");
                    extra_errors.push(e);
                    proof { assert(errs_view(extra_errors@) =~= prev.errors.push(e@)); }
                },
                AdditionalProperties::Validate(s) => {
                    proof {
                        assert(decreases_to!(*o => o.additional));
                        assert(decreases_to!(o.additional => **s));
                    }
                    match validate_node(s, &p.value, &fp, ctx) {
                        Validation::Success(y) => {
                            extra_out.push(Member { key: p.key.clone(), value: y });
                            proof { assert(members_view(extra_out@) =~= prev.out.push(Prop { key: p.key@, value: y@ })); }
                        },
                        Validation::Failure(es) => {
                            absorb(&mut extra_errors, es);
                        },
                    }
                },
            }
        }
        j = j + 1;
    }
    let ghost e1 = errors@;
    let ghost e2 = extra_errors@;
    let ghost o1 = out@;
    let ghost o2 = extra_out@;
    errors.append(&mut extra_errors);
    out.append(&mut extra_out);
    proof {
        assert(errs_view(e1 + e2) =~= errs_view(e1) + errs_view(e2));
        assert(members_view(o1 + o2) =~= members_view(o1) + members_view(o2));
    }
    // Rules across fields, over the validated fields.
    if !o.skip_on_field_errors || errors.len() == 0 {
        let ghost base = errs_view(errors@);
        let ghost outv = members_view(out@);
        let mut k: usize = 0;
        while k < o.rules.len()
            invariant
                k <= o.rules.len(),
                outv == members_view(out@),
                errs_view(errors@) == base + rule_violations(o.rules@.subrange(0, k as int), outv, path@),
            decreases o.rules.len() - k,
        {
            proof {
                assert(o.rules@.subrange(0, k + 1).drop_last() =~= o.rules@.subrange(0, k as int));
                assert(o.rules@.subrange(0, k + 1).last() == o.rules@[k as int]);
            }
            let ghost e0 = errs_view(errors@);
            match check_rule(&o.rules[k], &out, path) {
                Some(e) => {
                    errors.push(e);
                    proof { assert(errs_view(errors@) =~= e0.push(e@)); }
                },
                None => {},
            }
            k = k + 1;
            proof {
                assert(errs_view(errors@) =~= base + rule_violations(o.rules@.subrange(0, k as int), outv, path@));
            }
        }
        proof { assert(o.rules@.subrange(0, k as int) =~= o.rules@); }
    }
    let ghost outv = members_view(out@);
    let result = JsonValue::Object(out);
    proof { assert(result@ == Json::Object(outv)) by { assert(result@->Object_0 =~= outv); } }
    conclude(errors, result)
}

/// Validates `v` against an array schema.
pub fn validate_array(a: &ArraySchema, v: &JsonValue, path: &JsonPath, ctx: Option<&ValidationContext>) -> (r: Validation<JsonValue, SchemaErrors>)
    ensures
        r@ == array_outcome(*a, v@, path@, env_of(ctx)),
    decreases budget(env_of(ctx)), *a, 0nat,
{
    proof {
        reveal_strlit("expected array");
        reveal_strlit("array");
    }
    let items = match v {
        JsonValue::Array(items) => items,
        _ => return container_failure(&a.type_error_message, "expected array", v, "array", path),
    };
    let ghost env = env_of(ctx);
    let ghost xs = match v@ { Json::Array(x) => x, _ => Seq::empty() };
    proof { assert(xs =~= Seq::new(items@.len(), |i: int| items@[i]@)); }
    let mut errors: Vec<SchemaError> = Vec::new();
    let mut c: usize = 0;
    while c < a.constraints.len()
        invariant
            c <= a.constraints.len(),
            xs.len() == items.len(),
            errs_view(errors@) == length_violations(a.constraints@.subrange(0, c as int), items.len() as nat, path@),
        decreases a.constraints.len() - c,
    {
        proof { assert(a.constraints@.subrange(0, c + 1).drop_last() =~= a.constraints@.subrange(0, c as int)); }
        match check_length(&a.constraints[c], items.len(), path) {
            Some(e) => {
                errors.push(e);
            },
            None => {},
        }
        c = c + 1;
        proof { assert(errs_view(errors@) =~= length_violations(a.constraints@.subrange(0, c as int), items.len() as nat, path@)); }
    }
    proof { assert(a.constraints@.subrange(0, c as int) =~= a.constraints@); }
    let ghost base = errs_view(errors@);
    let mut out: Vec<JsonValue> = Vec::new();
    let mut i: usize = 0;
    while i < items.len()
        invariant
            i <= items.len(),
            env == env_of(ctx),
            xs == Seq::new(items@.len(), |i: int| items@[i]@),
            errs_view(errors@) == base + items_acc(*a.items, xs, path@, env, i as int).errors,
            Seq::new(out@.len(), |t: int| out@[t]@) == items_acc(*a.items, xs, path@, env, i as int).out,
        decreases items.len() - i,
    {
        let ip = path.push_index(i);
        let ghost prev = items_acc(*a.items, xs, path@, env, i as int);
        proof {
            assert(decreases_to!(*a => a.items));
            assert(xs[i as int] == items@[i as int]@);
        }
        match validate_node(&a.items, &items[i], &ip, ctx) {
            Validation::Success(y) => {
                let ghost before = out@;
                out.push(y);
                proof {
                    assert(Seq::new(out@.len(), |t: int| out@[t]@) =~= Seq::new(before.len(), |t: int| before[t]@).push(y@));
                }
            },
            Validation::Failure(es) => {
                absorb(&mut errors, es);
                proof { assert(errs_view(errors@) =~= base + (prev.errors + es@)); }
            },
        }
        i = i + 1;
    }
    let ghost after_items = errs_view(errors@);
    let mut c: usize = 0;
    while c < a.constraints.len()
        invariant
            c <= a.constraints.len(),
            xs == Seq::new(items@.len(), |i: int| items@[i]@),
            errs_view(errors@) == after_items + uniqueness_violations(a.constraints@.subrange(0, c as int), xs, path@),
        decreases a.constraints.len() - c,
    {
        proof { assert(a.constraints@.subrange(0, c + 1).drop_last() =~= a.constraints@.subrange(0, c as int)); }
        match &a.constraints[c] {
            ArrayConstraint::Unique { message } => {
                let mut found = duplicates(items, &None, message, path);
                let ghost f0 = errors@;
                let ghost f1 = found@;
                errors.append(&mut found);
                proof { assert(errs_view(f0 + f1) =~= errs_view(f0) + errs_view(f1)); }
            },
            ArrayConstraint::UniqueBy { key, message } => {
                let mut found = duplicates(items, &Some(key.clone()), message, path);
                let ghost f0 = errors@;
                let ghost f1 = found@;
                errors.append(&mut found);
                proof { assert(errs_view(f0 + f1) =~= errs_view(f0) + errs_view(f1)); }
            },
            _ => {},
        }
        c = c + 1;
        proof {
            assert(errs_view(errors@) =~= after_items + uniqueness_violations(a.constraints@.subrange(0, c as int), xs, path@));
        }
    }
    proof { assert(a.constraints@.subrange(0, c as int) =~= a.constraints@); }
    let ghost outv = Seq::new(out@.len(), |t: int| out@[t]@);
    let result = JsonValue::Array(out);
    proof { assert(result@ == Json::Array(outv)) by { assert(result@->Array_0 =~= outv); } }
    conclude(errors, result)
}

/// Validates `v` against a composed schema.
pub fn validate_combinator(c: &CombinatorSchema, v: &JsonValue, path: &JsonPath, ctx: Option<&ValidationContext>) -> (r: Validation<JsonValue, SchemaErrors>)
    ensures
        r@ == combinator_outcome(*c, v@, path@, env_of(ctx)),
    decreases budget(env_of(ctx)), *c, 0nat,
{
    proof {
        reveal_strlit("value did not match any of ");
        reveal_strlit(" schemas");
        reveal_strlit("one_of_none_matched");
        reveal_strlit("value matched ");
        reveal_strlit(" schemas (indices ");
        reveal_strlit("), expected exactly one");
        reveal_strlit("one_of_multiple_matched");
        reveal_strlit("any_of_none_matched");
    }
    let ghost env = env_of(ctx);
    match c {
        CombinatorSchema::OneOf(schemas) => {
            let mut ok: Vec<usize> = Vec::new();
            let mut first: Option<JsonValue> = None;
            let mut i: usize = 0;
            while i < schemas.len()
                invariant
                    i <= schemas.len(),
                    env == env_of(ctx),
                    *c == CombinatorSchema::OneOf(*schemas),
                    Seq::new(ok@.len(), |t: int| ok@[t] as nat) == accepting(*schemas, v@, path@, env, i as int),
                    match first {
                        Some(y) => first_accepted(*schemas, v@, path@, env, i as int) == Some(y@),
                        None => first_accepted(*schemas, v@, path@, env, i as int) is None,
                    },
                    ok@.len() == 0 <==> first is None,
                decreases schemas.len() - i,
            {
                proof {
                    assert(c->OneOf_0 == *schemas);
                    assert(decreases_to!(*c => c->OneOf_0));
                    assert(decreases_to!(*schemas => schemas@[i as int]));
                }
                let ghost before = ok@;
                match validate_node(&schemas[i], v, path, ctx) {
                    Validation::Success(y) => {
                        ok.push(i);
                        proof {
                            assert(Seq::new(ok@.len(), |t: int| ok@[t] as nat) =~= Seq::new(before.len(), |t: int| before[t] as nat).push(i as nat));
                        }
                        if first.is_none() {
                            first = Some(y);
                        }
                    },
                    Validation::Failure(_) => {},
                }
                i = i + 1;
            }
            let n = ok.len();
            if n == 0 {
                let mut m = String::from_str("value did not match any of ");
                push_decimal(&mut m, schemas.len() as u64);
                m.append(" schemas");
                fail_with(path, m, "one_of_none_matched")
            } else if n == 1 {
                match first {
                    Some(y) => Validation::Success(y),
                    None => Validation::Success(v.copy()),
                }
            } else {
                let mut m = String::from_str("value matched ");
                push_decimal(&mut m, n as u64);
                m.append(" schemas (indices ");
                push_index_list(&mut m, &ok);
                m.append("), expected exactly one");
                fail_with(path, m, "one_of_multiple_matched")
            }
        },
        CombinatorSchema::AnyOf(schemas) => {
            let mut i: usize = 0;
            while i < schemas.len()
                invariant
                    i <= schemas.len(),
                    env == env_of(ctx),
                    *c == CombinatorSchema::AnyOf(*schemas),
                    first_accepted(*schemas, v@, path@, env, i as int) is None,
                decreases schemas.len() - i,
            {
                proof {
                    assert(decreases_to!(*c => *schemas));
                    assert(decreases_to!(*schemas => schemas@[i as int]));
                }
                match validate_node(&schemas[i], v, path, ctx) {
                    Validation::Success(y) => {
                        proof { lemma_first_accepted_stable(*schemas, v@, path@, env, i + 1, schemas.len() as int); }
                        return Validation::Success(y);
                    },
                    Validation::Failure(_) => {},
                }
                i = i + 1;
            }
            let mut m = String::from_str("value did not match any of ");
            push_decimal(&mut m, schemas.len() as u64);
            m.append(" schemas");
            fail_with(path, m, "any_of_none_matched")
        },
        CombinatorSchema::AllOf(schemas) => {
            let mut errors: Vec<SchemaError> = Vec::new();
            let mut last: Option<JsonValue> = None;
            let mut i: usize = 0;
            while i < schemas.len()
                invariant
                    i <= schemas.len(),
                    env == env_of(ctx),
                    *c == CombinatorSchema::AllOf(*schemas),
                    errs_view(errors@) == all_acc(*schemas, v@, path@, env, i as int).errors,
                    match last {
                        Some(y) => all_acc(*schemas, v@, path@, env, i as int).last == Some(y@),
                        None => all_acc(*schemas, v@, path@, env, i as int).last is None,
                    },
                decreases schemas.len() - i,
            {
                proof {
                    assert(c->AllOf_0 == *schemas);
                    assert(decreases_to!(*c => c->AllOf_0));
                    assert(decreases_to!(*schemas => schemas@[i as int]));
                }
                match validate_node(&schemas[i], v, path, ctx) {
                    Validation::Success(y) => {
                        last = Some(y);
                    },
                    Validation::Failure(es) => {
                        absorb(&mut errors, es);
                    },
                }
                i = i + 1;
            }
            if errors.len() == 0 {
                match last {
                    Some(y) => Validation::Success(y),
                    None => Validation::Success(v.copy()),
                }
            } else {
                Validation::Failure(SchemaErrors::from_vec(errors))
            }
        },
        CombinatorSchema::Optional(inner) => {
            if v.is_null() {
                Validation::Success(JsonValue::Null)
            } else {
                proof { assert(decreases_to!(*c => **inner)); }
                validate_node(inner, v, path, ctx)
            }
        },
    }
}

/// Once a component has accepted the value, later components do not change
/// which output the first acceptance gives.
pub proof fn lemma_first_accepted_stable(schemas: Vec<SchemaNode>, v: Json, path: Seq<Seg>, env: Option<Env>, i: int, n: int)
    requires
        0 <= i <= n <= schemas.len(),
        first_accepted(schemas, v, path, env, i) is Some,
    ensures
        first_accepted(schemas, v, path, env, n) == first_accepted(schemas, v, path, env, i),
    decreases n - i,
{
    if n > i {
        lemma_first_accepted_stable(schemas, v, path, env, i, n - 1);
    }
}

/// Any schema that can stand inside another one.
pub trait SchemaLike: Sized {
    spec fn node(self) -> SchemaNode;

    fn into_node(self) -> (r: SchemaNode)
        ensures
            r == self.node(),
    ;
}

impl SchemaLike for SchemaNode {
    open spec fn node(self) -> SchemaNode {
        self
    }

    fn into_node(self) -> (r: SchemaNode) {
        self
    }
}

impl SchemaLike for StringSchema {
    open spec fn node(self) -> SchemaNode {
        SchemaNode::String(self)
    }

    fn into_node(self) -> (r: SchemaNode) {
        SchemaNode::String(self)
    }
}

impl SchemaLike for IntegerSchema {
    open spec fn node(self) -> SchemaNode {
        SchemaNode::Integer(self)
    }

    fn into_node(self) -> (r: SchemaNode) {
        SchemaNode::Integer(self)
    }
}

impl SchemaLike for ObjectSchema {
    open spec fn node(self) -> SchemaNode {
        SchemaNode::Object(self)
    }

    fn into_node(self) -> (r: SchemaNode) {
        SchemaNode::Object(self)
    }
}

impl SchemaLike for ArraySchema {
    open spec fn node(self) -> SchemaNode {
        SchemaNode::Array(self)
    }

    fn into_node(self) -> (r: SchemaNode) {
        SchemaNode::Array(self)
    }
}

impl SchemaLike for CombinatorSchema {
    open spec fn node(self) -> SchemaNode {
        SchemaNode::Combinator(self)
    }

    fn into_node(self) -> (r: SchemaNode) {
        SchemaNode::Combinator(self)
    }
}

impl SchemaLike for RefSchema {
    open spec fn node(self) -> SchemaNode {
        SchemaNode::Ref(self)
    }

    fn into_node(self) -> (r: SchemaNode) {
        SchemaNode::Ref(self)
    }
}

impl SchemaNode {
    /// Validates without a registry: references fail.
    pub fn validate(&self, v: &JsonValue, path: &JsonPath) -> (r: Validation<JsonValue, SchemaErrors>)
        ensures
            r@ == outcome(*self, v@, path@, None),
    {
        validate_node(self, v, path, None)
    }

    /// Validates with references resolved through the context.
    pub fn validate_with_context(&self, v: &JsonValue, path: &JsonPath, ctx: &ValidationContext) -> (r: Validation<JsonValue, SchemaErrors>)
        ensures
            r@ == outcome(*self, v@, path@, env_of(Some(ctx))),
    {
        validate_node(self, v, path, Some(ctx))
    }
}

impl StringSchema {
    /// Validates, the output as one value.
    pub fn validate_to_value(&self, v: &JsonValue, path: &JsonPath) -> (r: Validation<JsonValue, SchemaErrors>)
        ensures
            r@ == outcome(SchemaNode::String(*self), v@, path@, None),
    {
        match self.validate(v, path) {
            Validation::Success(t) => Validation::Success(JsonValue::Str(t)),
            Validation::Failure(e) => Validation::Failure(e),
        }
    }
}

impl IntegerSchema {
    /// Validates, the output as one value.
    pub fn validate_to_value(&self, v: &JsonValue, path: &JsonPath) -> (r: Validation<JsonValue, SchemaErrors>)
        ensures
            r@ == outcome(SchemaNode::Integer(*self), v@, path@, None),
    {
        match self.validate(v, path) {
            Validation::Success(n) => Validation::Success(JsonValue::Int(n)),
            Validation::Failure(e) => Validation::Failure(e),
        }
    }
}

impl ObjectSchema {
    /// Validates, the output as one value; the same as `validate`.
    pub fn validate_to_value(&self, v: &JsonValue, path: &JsonPath) -> (r: Validation<JsonValue, SchemaErrors>)
        ensures
            r@ == object_outcome(*self, v@, path@, None),
    {
        validate_object(self, v, path, None)
    }

    /// Validates without a registry: references fail.
    pub fn validate(&self, v: &JsonValue, path: &JsonPath) -> (r: Validation<JsonValue, SchemaErrors>)
        ensures
            r@ == object_outcome(*self, v@, path@, None),
    {
        validate_object(self, v, path, None)
    }

    pub fn validate_with_context(&self, v: &JsonValue, path: &JsonPath, ctx: &ValidationContext) -> (r: Validation<JsonValue, SchemaErrors>)
        ensures
            r@ == object_outcome(*self, v@, path@, env_of(Some(ctx))),
    {
        validate_object(self, v, path, Some(ctx))
    }
}

/// The items of a successful array validation.
fn items_of(r: Validation<JsonValue, SchemaErrors>) -> (out: Validation<Vec<JsonValue>, SchemaErrors>)
    requires
        r is Success ==> r->Success_0@ is Array,
    ensures
        match out {
            Validation::Success(items) => r@ == Validation::<Json, Seq<ErrorModel>>::Success(
                Json::Array(Seq::new(items@.len(), |i: int| items@[i]@))),
            Validation::Failure(e) => r@ == Validation::<Json, Seq<ErrorModel>>::Failure(e@),
        },
{
    match r {
        Validation::Success(JsonValue::Array(items)) => {
            proof {
                assert(r@->Success_0->Array_0 =~= Seq::new(items@.len(), |i: int| items@[i]@));
            }
            Validation::Success(items)
        },
        Validation::Success(_) => {
            proof { assert(false); }
            Validation::Success(Vec::new())
        },
        Validation::Failure(e) => Validation::Failure(e),
    }
}

impl ArraySchema {
    /// Validates without a registry: references fail. On success, the
    /// validated items.
    pub fn validate(&self, v: &JsonValue, path: &JsonPath) -> (r: Validation<Vec<JsonValue>, SchemaErrors>)
        ensures
            match r {
                Validation::Success(items) => array_outcome(*self, v@, path@, None) == Validation::<Json, Seq<ErrorModel>>::Success(
                    Json::Array(Seq::new(items@.len(), |i: int| items@[i]@))),
                Validation::Failure(e) => array_outcome(*self, v@, path@, None) == Validation::<Json, Seq<ErrorModel>>::Failure(e@),
            },
    {
        items_of(validate_array(self, v, path, None))
    }

    pub fn validate_with_context(&self, v: &JsonValue, path: &JsonPath, ctx: &ValidationContext) -> (r: Validation<Vec<JsonValue>, SchemaErrors>)
        ensures
            match r {
                Validation::Success(items) => array_outcome(*self, v@, path@, env_of(Some(ctx))) == Validation::<Json, Seq<ErrorModel>>::Success(
                    Json::Array(Seq::new(items@.len(), |i: int| items@[i]@))),
                Validation::Failure(e) => array_outcome(*self, v@, path@, env_of(Some(ctx))) == Validation::<Json, Seq<ErrorModel>>::Failure(e@),
            },
    {
        items_of(validate_array(self, v, path, Some(ctx)))
    }

    /// Validates without a registry, the output as one value.
    pub fn validate_to_value(&self, v: &JsonValue, path: &JsonPath) -> (r: Validation<JsonValue, SchemaErrors>)
        ensures
            r@ == array_outcome(*self, v@, path@, None),
    {
        validate_array(self, v, path, None)
    }
}

impl CombinatorSchema {
    /// Validates without a registry: references fail.
    pub fn validate(&self, v: &JsonValue, path: &JsonPath) -> (r: Validation<JsonValue, SchemaErrors>)
        ensures
            r@ == combinator_outcome(*self, v@, path@, None),
    {
        validate_combinator(self, v, path, None)
    }

    pub fn validate_with_context(&self, v: &JsonValue, path: &JsonPath, ctx: &ValidationContext) -> (r: Validation<JsonValue, SchemaErrors>)
        ensures
            r@ == combinator_outcome(*self, v@, path@, env_of(Some(ctx))),
    {
        validate_combinator(self, v, path, Some(ctx))
    }
}

impl RefSchema {
    /// Without a registry a reference always fails with `missing_registry`.
    pub fn validate(&self, v: &JsonValue, path: &JsonPath) -> (r: Validation<JsonValue, SchemaErrors>)
        ensures
            r@ == outcome(SchemaNode::Ref(*self), v@, path@, None),
    {
        let node = SchemaNode::Ref(RefSchema { name: self.name.clone() });
        validate_node(&node, v, path, None)
    }

    pub fn validate_with_context(&self, v: &JsonValue, path: &JsonPath, ctx: &ValidationContext) -> (r: Validation<JsonValue, SchemaErrors>)
        ensures
            r@ == outcome(SchemaNode::Ref(*self), v@, path@, env_of(Some(ctx))),
    {
        let node = SchemaNode::Ref(RefSchema { name: self.name.clone() });
        validate_node(&node, v, path, Some(ctx))
    }
}

/// The names referenced anywhere inside `node`, in a fixed traversal order.
pub open spec fn refs_of(node: SchemaNode) -> Seq<Seq<char>>
    decreases node, 0nat,
{
    match node {
        SchemaNode::String(_) => Seq::empty(),
        SchemaNode::Integer(_) => Seq::empty(),
        SchemaNode::Object(o) => field_refs(o.fields, o.fields.len() as int) + match o.additional {
            AdditionalProperties::Validate(b) => refs_of(*b),
            _ => Seq::empty(),
        },
        SchemaNode::Array(a) => refs_of(*a.items),
        SchemaNode::Combinator(c) => match c {
            CombinatorSchema::OneOf(v) => list_refs(v, v.len() as int),
            CombinatorSchema::AnyOf(v) => list_refs(v, v.len() as int),
            CombinatorSchema::AllOf(v) => list_refs(v, v.len() as int),
            CombinatorSchema::Optional(b) => refs_of(*b),
        },
        SchemaNode::Ref(r) => seq![r.name@],
    }
}

/// The names referenced by the first `n` fields.
pub open spec fn field_refs(fields: Vec<FieldDef>, n: int) -> Seq<Seq<char>>
    decreases fields, n,
{
    if n <= 0 || n > fields.len() {
        Seq::empty()
    } else {
        field_refs(fields, n - 1) + refs_of(fields@[n - 1].schema)
    }
}

/// The names referenced by the first `n` schemas.
pub open spec fn list_refs(schemas: Vec<SchemaNode>, n: int) -> Seq<Seq<char>>
    decreases schemas, n,
{
    if n <= 0 || n > schemas.len() {
        Seq::empty()
    } else {
        list_refs(schemas, n - 1) + refs_of(schemas@[n - 1])
    }
}

/// The views of a list of names.
pub open spec fn name_views(v: Seq<String>) -> Seq<Seq<char>> {
    Seq::new(v.len(), |i: int| v[i]@)
}

fn collect_list(schemas: &Vec<SchemaNode>, out: &mut Vec<String>)
    ensures
        name_views(final(out)@) == name_views(old(out)@) + list_refs(*schemas, schemas.len() as int),
    decreases *schemas, 1nat,
{
    let ghost start = name_views(out@);
    let mut i: usize = 0;
    while i < schemas.len()
        invariant
            i <= schemas.len(),
            name_views(out@) == start + list_refs(*schemas, i as int),
        decreases schemas.len() - i,
    {
        proof { assert(decreases_to!(*schemas => schemas@[i as int])); }
        collect_refs(&schemas[i], out);
        i = i + 1;
        proof { assert(name_views(out@) =~= start + list_refs(*schemas, i as int)); }
    }
}

/// Appends every name referenced inside `node`.
pub fn collect_refs(node: &SchemaNode, out: &mut Vec<String>)
    ensures
        name_views(final(out)@) == name_views(old(out)@) + refs_of(*node),
    decreases *node, 2nat,
{
    let ghost start = name_views(out@);
    match node {
        SchemaNode::String(_) => {
            proof { assert(name_views(out@) =~= start + refs_of(*node)); }
        },
        SchemaNode::Integer(_) => {
            proof { assert(name_views(out@) =~= start + refs_of(*node)); }
        },
        SchemaNode::Object(o) => {
            let mut i: usize = 0;
            while i < o.fields.len()
                invariant
                    i <= o.fields.len(),
                    *node == SchemaNode::Object(*o),
                    name_views(out@) == start + field_refs(o.fields, i as int),
                decreases o.fields.len() - i,
            {
                proof {
                    assert(node->Object_0 == *o);
                    assert(decreases_to!(*node => node->Object_0));
                    assert(decreases_to!(*o => o.fields));
                    assert(decreases_to!(o.fields => o.fields@[i as int]));
                }
                collect_refs(&o.fields[i].schema, out);
                i = i + 1;
                proof { assert(name_views(out@) =~= start + field_refs(o.fields, i as int)); }
            }
            match &o.additional {
                AdditionalProperties::Validate(b) => {
                    collect_refs(b, out);
                },
                _ => {},
            }
            proof { assert(name_views(out@) =~= start + refs_of(*node)); }
        },
        SchemaNode::Array(a) => {
            collect_refs(&a.items, out);
        },
        SchemaNode::Combinator(c) => {
            match c {
                CombinatorSchema::OneOf(v) => collect_list(v, out),
                CombinatorSchema::AnyOf(v) => collect_list(v, out),
                CombinatorSchema::AllOf(v) => collect_list(v, out),
                CombinatorSchema::Optional(b) => collect_refs(b, out),
            }
        },
        SchemaNode::Ref(r) => {
            out.push(r.name.clone());
            proof { assert(name_views(out@) =~= start + refs_of(*node)); }
        },
    }
}

} // verus!
