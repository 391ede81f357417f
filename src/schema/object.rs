//! Object schemas: declared fields, a policy for undeclared ones, and
//! cross-field rules over the validated fields.

use vstd::prelude::*;
use crate::error::{ErrorModel, SchemaError, plain_error};
use crate::json::{Json, JsonValue, Member, Prop, entry_index, lemma_entry_index_prefix};
use crate::path::{JsonPath, Seg};
use crate::schema::node::{SchemaLike, SchemaNode};
use crate::schema::numeric::opt_seq;
use crate::text::{text_eq, text_less, text_lt};

verus! {

/// A declared field: its schema, whether it must be present, and the value
/// used in its place when it is absent.
pub struct FieldDef {
    pub name: String,
    pub schema: SchemaNode,
    pub required: bool,
    pub default: Option<JsonValue>,
}

/// What happens to keys of the input that no field declares.
pub enum AdditionalProperties {
    Allow,
    Deny,
    Validate(Box<SchemaNode>),
}

/// A rule over several validated fields, run after the fields themselves.
pub enum CrossFieldRule {
    /// `required_field` must be present when `condition_field` holds `condition_value`.
    RequireIf { condition_field: String, condition_value: JsonValue, required_field: String },
    /// At most one of the two fields may be present and non-null.
    MutuallyExclusive { first: String, second: String },
    /// At least one of the fields must be present and non-null.
    AtLeastOneOf { fields: Vec<String> },
    /// When both fields are present they must hold the same value.
    EqualFields { first: String, second: String },
    /// When both fields hold integers, or both hold strings, the first must be
    /// smaller (or, with `or_equal`, not larger). Other pairs are not compared.
    Ordered { first: String, second: String, or_equal: bool },
}

/// The views of a list of members.
pub open spec fn members_view(m: Seq<Member>) -> Seq<Prop> {
    Seq::new(m.len(), |i: int| Prop { key: m[i].key@, value: m[i].value@ })
}

/// The value under `key` among the validated fields.
pub open spec fn prop_get(out: Seq<Prop>, key: Seq<char>) -> Option<Json> {
    match entry_index(out, key) {
        Some(i) => Some(out[i].value),
        None => None,
    }
}

/// Whether `key` is present with a value other than null.
pub open spec fn prop_has(out: Seq<Prop>, key: Seq<char>) -> bool {
    match prop_get(out, key) {
        Some(v) => !(v is Null),
        None => false,
    }
}

/// An integer view of a JSON number, when it is an integer.
pub open spec fn int_of(v: Json) -> Option<int> {
    match v {
        Json::Int(n) => Some(n),
        Json::UInt(n) => Some(n),
        _ => None,
    }
}

/// Whether `a` and `b` are out of order: `a >= b` (or `a > b` with `or_equal`),
/// for two integers or two strings; other pairs are never out of order.
pub open spec fn out_of_order(a: Json, b: Json, or_equal: bool) -> bool {
    match (int_of(a), int_of(b)) {
        (Some(x), Some(y)) => if or_equal { x > y } else { x >= y },
        _ => match (a, b) {
            (Json::Str(x), Json::Str(y)) => if or_equal { text_lt(y, x) } else { !text_lt(x, y) },
            _ => false,
        },
    }
}

/// `["a", "b"]`: each name quoted, separated by `, `, in brackets.
pub open spec fn quoted_list(names: Seq<Seq<char>>) -> Seq<char> {
    "["@ + quoted_items(names) + "]"@
}

pub open spec fn quoted_items(names: Seq<Seq<char>>) -> Seq<char>
    decreases names.len(),
{
    if names.len() == 0 {
        Seq::empty()
    } else if names.len() == 1 {
        "\""@ + names[0] + "\""@
    } else {
        quoted_items(names.drop_last()) + ", \""@ + names.last() + "\""@
    }
}

/// The views of a list of strings.
pub open spec fn names_view(v: Seq<String>) -> Seq<Seq<char>> {
    Seq::new(v.len(), |i: int| v[i]@)
}

/// The error a rule reports on the validated fields, if they break it.
pub open spec fn rule_violation(rule: CrossFieldRule, out: Seq<Prop>, path: Seq<Seg>) -> Option<ErrorModel> {
    match rule {
        CrossFieldRule::RequireIf { condition_field, condition_value, required_field } =>
            if prop_get(out, condition_field@) == Some(condition_value@) && prop_get(out, required_field@) is None {
                Some(plain_error(path.push(Seg::Field(required_field@)),
                    "'"@ + required_field@ + "' is required when '"@ + condition_field@ + "' matches condition"@,
                    "conditional_required"@))
            } else {
                None
            },
        CrossFieldRule::MutuallyExclusive { first, second } =>
            if prop_has(out, first@) && prop_has(out, second@) {
                Some(plain_error(path, "'"@ + first@ + "' and '"@ + second@ + "' are mutually exclusive"@,
                    "mutually_exclusive"@))
            } else {
                None
            },
        CrossFieldRule::AtLeastOneOf { fields } =>
            if !(exists|i: int| 0 <= i < fields.len() && prop_has(out, #[trigger] fields@[i]@)) {
                Some(plain_error(path, "at least one of "@ + quoted_list(names_view(fields@)) + " is required"@,
                    "at_least_one_required"@))
            } else {
                None
            },
        CrossFieldRule::EqualFields { first, second } =>
            match (prop_get(out, first@), prop_get(out, second@)) {
                (Some(a), Some(b)) => if a != b {
                    Some(plain_error(path.push(Seg::Field(second@)), "'"@ + second@ + "' must match '"@ + first@ + "'"@,
                        "fields_not_equal"@))
                } else {
                    None
                },
                _ => None,
            },
        CrossFieldRule::Ordered { first, second, or_equal } =>
            match (prop_get(out, first@), prop_get(out, second@)) {
                (Some(a), Some(b)) => if out_of_order(a, b, or_equal) {
                    Some(plain_error(path.push(Seg::Field(first@)),
                        if or_equal {
                            "'"@ + first@ + "' must be less than or equal to '"@ + second@ + "'"@
                        } else {
                            "'"@ + first@ + "' must be less than '"@ + second@ + "'"@
                        },
                        if or_equal { "field_not_less_or_equal"@ } else { "field_not_less_than"@ }))
                } else {
                    None
                },
                _ => None,
            },
    }
}

/// Every violation of the rules, in rule order.
pub open spec fn rule_violations(rules: Seq<CrossFieldRule>, out: Seq<Prop>, path: Seq<Seg>) -> Seq<ErrorModel>
    decreases rules.len(),
{
    if rules.len() == 0 {
        Seq::empty()
    } else {
        rule_violations(rules.drop_last(), out, path) + opt_seq(rule_violation(rules.last(), out, path))
    }
}

/// The value under `key` among the members, if there is one.
pub fn member_get<'a>(members: &'a Vec<Member>, key: &str) -> (r: Option<&'a JsonValue>)
    ensures
        r is None <==> prop_get(members_view(members@), key@) is None,
        r is Some ==> prop_get(members_view(members@), key@) == Some(r->Some_0@),
{
    let ghost es = members_view(members@);
    let mut i: usize = 0;
    while i < members.len()
        invariant
            i <= members.len(),
            es == members_view(members@),
            entry_index(es.subrange(0, i as int), key@) is None,
        decreases members.len() - i,
    {
        let ghost pre = es.subrange(0, i as int);
        proof { assert(es.subrange(0, i + 1).drop_last() =~= pre); }
        if text_eq(members[i].key.as_str(), key) {
            proof {
                assert(entry_index(es.subrange(0, i + 1), key@) == Some(i as int));
                lemma_entry_index_prefix(es, key@, i + 1);
            }
            return Some(&members[i].value);
        }
        i = i + 1;
    }
    proof { assert(es.subrange(0, i as int) =~= es); }
    None
}

/// Whether `key` is present with a value other than null.
pub fn member_has(members: &Vec<Member>, key: &str) -> (r: bool)
    ensures
        r == prop_has(members_view(members@), key@),
{
    match member_get(members, key) {
        Some(v) => !v.is_null(),
        None => false,
    }
}

/// `'a' text 'b' rest` for two quoted names.
fn two_names(pre: &str, a: &str, mid: &str, b: &str, post: &str) -> (r: String)
    ensures
        r@ == pre@ + a@ + mid@ + b@ + post@,
{
    let mut out = String::from_str(pre);
    out.append(a);
    out.append(mid);
    out.append(b);
    out.append(post);
    out
}

fn quoted_names(names: &Vec<String>) -> (r: String)
    ensures
        r@ == quoted_list(names_view(names@)),
{
    proof {
        reveal_strlit("[");
        reveal_strlit("]");
        reveal_strlit("\"");
        reveal_strlit(", \"");
    }
    let mut out = String::from_str("[");
    let mut i: usize = 0;
    while i < names.len()
        invariant
            i <= names.len(),
            out@ == "["@ + quoted_items(names_view(names@.subrange(0, i as int))),
        decreases names.len() - i,
    {
        let ghost pre = names_view(names@.subrange(0, i as int));
        proof {
            assert(names_view(names@.subrange(0, i + 1)).drop_last() =~= pre);
            assert(names_view(names@.subrange(0, i + 1)).last() == names@[i as int]@);
        }
        if i > 0 {
            out.append(", \"");
        } else {
            out.append("\"");
        }
        out.append(names[i].as_str());
        out.append("\"");
        i = i + 1;
        proof {
            if i == 1 {
                assert(names_view(names@.subrange(0, 1)) =~= seq![names@[0]@]);
            }
            assert(out@ =~= "["@ + quoted_items(names_view(names@.subrange(0, i as int))));
        }
    }
    out.append("]");
    proof { assert(names@.subrange(0, i as int) =~= names@); }
    out
}

fn is_out_of_order(a: &JsonValue, b: &JsonValue, or_equal: bool) -> (r: bool)
    ensures
        r == out_of_order(a@, b@, or_equal),
{
    let x: Option<i128> = match a {
        JsonValue::Int(n) => Some(*n as i128),
        JsonValue::UInt(n) => Some(*n as i128),
        _ => None,
    };
    let y: Option<i128> = match b {
        JsonValue::Int(n) => Some(*n as i128),
        JsonValue::UInt(n) => Some(*n as i128),
        _ => None,
    };
    match (x, y) {
        (Some(x), Some(y)) => if or_equal { x > y } else { x >= y },
        _ => match (a, b) {
            (JsonValue::Str(s), JsonValue::Str(t)) => if or_equal {
                text_less(t.as_str(), s.as_str())
            } else {
                !text_less(s.as_str(), t.as_str())
            },
            _ => false,
        },
    }
}

/// The error a rule reports on the validated fields, if they break it.
pub fn check_rule(rule: &CrossFieldRule, out: &Vec<Member>, path: &JsonPath) -> (r: Option<SchemaError>)
    ensures
        match r {
            Some(e) => rule_violation(*rule, members_view(out@), path@) == Some(e@),
            None => rule_violation(*rule, members_view(out@), path@) is None,
        },
{
    proof {
        reveal_strlit("'");
        reveal_strlit("' is required when '");
        reveal_strlit("' matches condition");
        reveal_strlit("conditional_required");
        reveal_strlit("' and '");
        reveal_strlit("' are mutually exclusive");
        reveal_strlit("mutually_exclusive");
        reveal_strlit("at least one of ");
        reveal_strlit(" is required");
        reveal_strlit("at_least_one_required");
        reveal_strlit("' must match '");
        reveal_strlit("fields_not_equal");
        reveal_strlit("' must be less than or equal to '");
        reveal_strlit("' must be less than '");
        reveal_strlit("field_not_less_or_equal");
        reveal_strlit("field_not_less_than");
    }
    let ghost o = members_view(out@);
    match rule {
        CrossFieldRule::RequireIf { condition_field, condition_value, required_field } => {
            let cond = match member_get(out, condition_field.as_str()) {
                Some(cv) => cv.same(condition_value),
                None => false,
            };
            let missing = match member_get(out, required_field.as_str()) {
                Some(_) => false,
                None => true,
            };
            if cond && missing {
                let m = two_names("'", required_field.as_str(), "' is required when '", condition_field.as_str(), "' matches condition");
                Some(SchemaError::with_message(path.push_field(required_field.as_str()), m).with_code("conditional_required"))
            } else {
                None
            }
        },
        CrossFieldRule::MutuallyExclusive { first, second } => {
            if member_has(out, first.as_str()) && member_has(out, second.as_str()) {
                let m = two_names("'", first.as_str(), "' and '", second.as_str(), "' are mutually exclusive");
                Some(SchemaError::with_message(path.copy(), m).with_code("mutually_exclusive"))
            } else {
                None
            }
        },
        CrossFieldRule::AtLeastOneOf { fields } => {
            let mut i: usize = 0;
            let mut any = false;
            while i < fields.len() && !any
                invariant
                    i <= fields.len(),
                    !any ==> forall|j: int| 0 <= j < i ==> !prop_has(o, #[trigger] fields@[j]@),
                    any ==> exists|j: int| 0 <= j < fields.len() && prop_has(o, #[trigger] fields@[j]@),
                    o == members_view(out@),
                decreases fields.len() - i,
            {
                if member_has(out, fields[i].as_str()) {
                    any = true;
                }
                i = i + 1;
            }
            if any {
                None
            } else {
                let list = quoted_names(fields);
                let m = two_names("at least one of ", list.as_str(), " is required", "", "");
                proof { reveal_strlit(""); assert(m@ =~= "at least one of "@ + list@ + " is required"@); }
                Some(SchemaError::with_message(path.copy(), m).with_code("at_least_one_required"))
            }
        },
        CrossFieldRule::EqualFields { first, second } => {
            match (member_get(out, first.as_str()), member_get(out, second.as_str())) {
                (Some(a), Some(b)) => {
                    if !a.same(b) {
                        let m = two_names("'", second.as_str(), "' must match '", first.as_str(), "'");
                        Some(SchemaError::with_message(path.push_field(second.as_str()), m).with_code("fields_not_equal"))
                    } else {
                        None
                    }
                },
                _ => None,
            }
        },
        CrossFieldRule::Ordered { first, second, or_equal } => {
            match (member_get(out, first.as_str()), member_get(out, second.as_str())) {
                (Some(a), Some(b)) => {
                    if is_out_of_order(a, b, *or_equal) {
                        if *or_equal {
                            let m = two_names("'", first.as_str(), "' must be less than or equal to '", second.as_str(), "'");
                            Some(SchemaError::with_message(path.push_field(first.as_str()), m).with_code("field_not_less_or_equal"))
                        } else {
                            let m = two_names("'", first.as_str(), "' must be less than '", second.as_str(), "'");
                            Some(SchemaError::with_message(path.push_field(first.as_str()), m).with_code("field_not_less_than"))
                        }
                    } else {
                        None
                    }
                },
                _ => None,
            }
        },
    }
}

/// A schema for objects.
pub struct ObjectSchema {
    pub fields: Vec<FieldDef>,
    pub additional: AdditionalProperties,
    pub type_error_message: Option<String>,
    pub rules: Vec<CrossFieldRule>,
    pub skip_on_field_errors: bool,
}

/// The position of the first field with that name.
pub open spec fn field_index(fs: Seq<FieldDef>, name: Seq<char>) -> Option<int>
    decreases fs.len(),
{
    if fs.len() == 0 {
        None
    } else {
        match field_index(fs.drop_last(), name) {
            Some(i) => Some(i),
            None => if fs.last().name@ == name { Some(fs.len() - 1) } else { None },
        }
    }
}

/// The fields with `d` declared: it replaces a field of the same name in
/// place, or else comes last.
pub open spec fn put_field(fs: Seq<FieldDef>, d: FieldDef) -> Seq<FieldDef> {
    match field_index(fs, d.name@) {
        Some(i) => fs.update(i, d),
        None => fs.push(d),
    }
}

pub proof fn lemma_field_index_prefix(fs: Seq<FieldDef>, name: Seq<char>, n: int)
    requires
        0 <= n <= fs.len(),
        field_index(fs.subrange(0, n), name) is Some,
    ensures
        field_index(fs, name) == field_index(fs.subrange(0, n), name),
    decreases fs.len(),
{
    if n < fs.len() {
        assert(fs.drop_last().subrange(0, n) =~= fs.subrange(0, n));
        lemma_field_index_prefix(fs.drop_last(), name, n);
    } else {
        assert(fs.subrange(0, n) =~= fs);
    }
}

/// A setting for keys that no field declares.
pub struct AdditionalPropertiesSetting(pub AdditionalProperties);

impl AdditionalPropertiesSetting {
    /// Allow (`true`) or deny (`false`) undeclared keys.
    pub fn from_bool(allow: bool) -> (r: AdditionalPropertiesSetting)
        ensures
            allow ==> r.0 is Allow,
            !allow ==> r.0 is Deny,
    {
        if allow {
            AdditionalPropertiesSetting(AdditionalProperties::Allow)
        } else {
            AdditionalPropertiesSetting(AdditionalProperties::Deny)
        }
    }

    /// Validate undeclared keys against `schema`.
    pub fn from_schema<S: SchemaLike>(schema: S) -> (r: AdditionalPropertiesSetting)
        ensures
            r.0 == AdditionalProperties::Validate(Box::new(schema.node())),
    {
        AdditionalPropertiesSetting(AdditionalProperties::Validate(Box::new(schema.into_node())))
    }
}

impl ObjectSchema {
    pub fn new() -> (r: ObjectSchema)
        ensures
            r.fields@.len() == 0,
            r.additional is Allow,
            r.type_error_message is None,
            r.rules@.len() == 0,
            r.skip_on_field_errors,
    {
        ObjectSchema {
            fields: Vec::new(),
            additional: AdditionalProperties::Allow,
            type_error_message: None,
            rules: Vec::new(),
            skip_on_field_errors: true,
        }
    }

    fn put(self, d: FieldDef) -> (r: ObjectSchema)
        ensures
            r.fields@ == put_field(self.fields@, d),
            r.additional == self.additional,
            r.type_error_message == self.type_error_message,
            r.rules == self.rules,
            r.skip_on_field_errors == self.skip_on_field_errors,
    {
        let mut s = self;
        let mut i: usize = 0;
        while i < s.fields.len()
            invariant
                i <= s.fields.len(),
                s.fields@ == self.fields@,
                s.additional == self.additional,
                s.type_error_message == self.type_error_message,
                s.rules == self.rules,
                s.skip_on_field_errors == self.skip_on_field_errors,
                field_index(s.fields@.subrange(0, i as int), d.name@) is None,
            decreases s.fields.len() - i,
        {
            proof { assert(s.fields@.subrange(0, i + 1).drop_last() =~= s.fields@.subrange(0, i as int)); }
            if s.fields[i].name.eq(&d.name) {
                proof { lemma_field_index_prefix(s.fields@, d.name@, i + 1); }
                let _replaced = s.fields.remove(i);
                s.fields.insert(i, d);
                proof { assert(s.fields@ =~= self.fields@.update(i as int, d)); }
                return s;
            }
            i = i + 1;
        }
        proof { assert(s.fields@.subrange(0, i as int) =~= s.fields@); }
        s.fields.push(d);
        s
    }

    /// Declares a required field.
    pub fn field<S: SchemaLike>(self, name: &str, schema: S) -> (r: ObjectSchema)
        ensures
            exists|d: FieldDef| d.name@ == name@ && d.schema == schema.node() && d.required && d.default is None
                && r.fields@ == put_field(self.fields@, d),
            r.additional == self.additional,
            r.type_error_message == self.type_error_message,
            r.rules == self.rules,
            r.skip_on_field_errors == self.skip_on_field_errors,
    {
        let d = FieldDef { name: String::from_str(name), schema: schema.into_node(), required: true, default: None };
        let ghost dd = d;
        let r = self.put(d);
        proof { assert(r.fields@ == put_field(self.fields@, dd)); }
        r
    }

    /// Declares a field that may be absent; an absent one is left out.
    pub fn optional<S: SchemaLike>(self, name: &str, schema: S) -> (r: ObjectSchema)
        ensures
            exists|d: FieldDef| d.name@ == name@ && d.schema == schema.node() && !d.required && d.default is None
                && r.fields@ == put_field(self.fields@, d),
            r.additional == self.additional,
            r.type_error_message == self.type_error_message,
            r.rules == self.rules,
            r.skip_on_field_errors == self.skip_on_field_errors,
    {
        let d = FieldDef { name: String::from_str(name), schema: schema.into_node(), required: false, default: None };
        let ghost dd = d;
        let r = self.put(d);
        proof { assert(r.fields@ == put_field(self.fields@, dd)); }
        r
    }

    /// Declares a field that may be absent; an absent one takes `value`.
    pub fn default<S: SchemaLike>(self, name: &str, schema: S, value: JsonValue) -> (r: ObjectSchema)
        ensures
            exists|d: FieldDef| d.name@ == name@ && d.schema == schema.node() && !d.required && d.default == Some(value)
                && r.fields@ == put_field(self.fields@, d),
            r.additional == self.additional,
            r.type_error_message == self.type_error_message,
            r.rules == self.rules,
            r.skip_on_field_errors == self.skip_on_field_errors,
    {
        let d = FieldDef { name: String::from_str(name), schema: schema.into_node(), required: false, default: Some(value) };
        let ghost dd = d;
        let r = self.put(d);
        proof { assert(r.fields@ == put_field(self.fields@, dd)); }
        r
    }

    pub fn additional_properties(self, setting: AdditionalPropertiesSetting) -> (r: ObjectSchema)
        ensures
            r.additional == setting.0,
            r.fields == self.fields,
            r.rules == self.rules,
            r.type_error_message == self.type_error_message,
            r.skip_on_field_errors == self.skip_on_field_errors,
    {
        ObjectSchema { additional: setting.0, ..self }
    }

    /// Sets the message of the type check.
    pub fn error(self, message: &str) -> (r: ObjectSchema)
        ensures
            crate::error::opt_view(r.type_error_message) == Some(message@),
            r.fields == self.fields,
            r.additional == self.additional,
            r.rules == self.rules,
            r.skip_on_field_errors == self.skip_on_field_errors,
    {
        ObjectSchema { type_error_message: Some(String::from_str(message)), ..self }
    }

    /// Whether cross-field rules are skipped when a field already failed.
    pub fn skip_cross_field_on_errors(self, skip: bool) -> (r: ObjectSchema)
        ensures
            r.skip_on_field_errors == skip,
            r.fields == self.fields,
            r.additional == self.additional,
            r.rules == self.rules,
            r.type_error_message == self.type_error_message,
    {
        ObjectSchema { skip_on_field_errors: skip, ..self }
    }

    /// Adds a cross-field rule, run after the ones already added.
    pub fn rule(self, rule: CrossFieldRule) -> (r: ObjectSchema)
        ensures
            r.rules@ == self.rules@.push(rule),
            r.fields == self.fields,
            r.additional == self.additional,
            r.type_error_message == self.type_error_message,
            r.skip_on_field_errors == self.skip_on_field_errors,
    {
        let mut s = self;
        s.rules.push(rule);
        s
    }

    /// `required_field` must be present when `condition_field` holds `condition_value`.
    pub fn require_if(self, condition_field: &str, condition_value: JsonValue, required_field: &str) -> (r: ObjectSchema)
        ensures
            r.rules@.len() == self.rules@.len() + 1,
            r.rules@.drop_last() == self.rules@,
            r.rules@.last() matches CrossFieldRule::RequireIf { condition_field: c, condition_value: v, required_field: q }
                && c@ == condition_field@ && v == condition_value && q@ == required_field@,
            r.fields == self.fields,
            r.additional == self.additional,
            r.skip_on_field_errors == self.skip_on_field_errors,
    {
        let r = self.rule(CrossFieldRule::RequireIf {
            condition_field: String::from_str(condition_field),
            condition_value,
            required_field: String::from_str(required_field),
        });
        proof { assert(r.rules@.drop_last() =~= self.rules@); }
        r
    }

    pub fn mutually_exclusive(self, first: &str, second: &str) -> (r: ObjectSchema)
        ensures
            r.rules@.len() == self.rules@.len() + 1,
            r.rules@.drop_last() == self.rules@,
            r.rules@.last() matches CrossFieldRule::MutuallyExclusive { first: a, second: b } && a@ == first@ && b@ == second@,
            r.fields == self.fields,
            r.additional == self.additional,
            r.skip_on_field_errors == self.skip_on_field_errors,
    {
        let r = self.rule(CrossFieldRule::MutuallyExclusive { first: String::from_str(first), second: String::from_str(second) });
        proof { assert(r.rules@.drop_last() =~= self.rules@); }
        r
    }

    pub fn at_least_one_of(self, fields: &[&str]) -> (r: ObjectSchema)
        ensures
            r.rules@.len() == self.rules@.len() + 1,
            r.rules@.drop_last() == self.rules@,
            r.rules@.last() matches CrossFieldRule::AtLeastOneOf { fields: fs }
                && names_view(fs@) == Seq::new(fields@.len(), |i: int| fields@[i]@),
            r.fields == self.fields,
            r.additional == self.additional,
            r.skip_on_field_errors == self.skip_on_field_errors,
    {
        let mut fs: Vec<String> = Vec::new();
        let mut i: usize = 0;
        while i < fields.len()
            invariant
                i <= fields@.len(),
                fs@.len() == i,
                forall|j: int| 0 <= j < i ==> #[trigger] fs@[j]@ == fields@[j]@,
            decreases fields@.len() - i,
        {
            fs.push(String::from_str(fields[i]));
            i = i + 1;
        }
        let ghost fv = fs@;
        let r = self.rule(CrossFieldRule::AtLeastOneOf { fields: fs });
        proof {
            assert(r.rules@.drop_last() =~= self.rules@);
            assert(names_view(fv) =~= Seq::new(fields@.len(), |i: int| fields@[i]@));
        }
        r
    }

    pub fn equal_fields(self, first: &str, second: &str) -> (r: ObjectSchema)
        ensures
            r.rules@.len() == self.rules@.len() + 1,
            r.rules@.drop_last() == self.rules@,
            r.rules@.last() matches CrossFieldRule::EqualFields { first: a, second: b } && a@ == first@ && b@ == second@,
            r.fields == self.fields,
            r.additional == self.additional,
            r.skip_on_field_errors == self.skip_on_field_errors,
    {
        let r = self.rule(CrossFieldRule::EqualFields { first: String::from_str(first), second: String::from_str(second) });
        proof { assert(r.rules@.drop_last() =~= self.rules@); }
        r
    }

    pub fn field_less_than(self, first: &str, second: &str) -> (r: ObjectSchema)
        ensures
            r.rules@.len() == self.rules@.len() + 1,
            r.rules@.drop_last() == self.rules@,
            r.rules@.last() matches CrossFieldRule::Ordered { first: a, second: b, or_equal } && a@ == first@ && b@ == second@ && !or_equal,
            r.fields == self.fields,
            r.additional == self.additional,
            r.skip_on_field_errors == self.skip_on_field_errors,
    {
        let r = self.rule(CrossFieldRule::Ordered { first: String::from_str(first), second: String::from_str(second), or_equal: false });
        proof { assert(r.rules@.drop_last() =~= self.rules@); }
        r
    }

    pub fn field_less_or_equal(self, first: &str, second: &str) -> (r: ObjectSchema)
        ensures
            r.rules@.len() == self.rules@.len() + 1,
            r.rules@.drop_last() == self.rules@,
            r.rules@.last() matches CrossFieldRule::Ordered { first: a, second: b, or_equal } && a@ == first@ && b@ == second@ && or_equal,
            r.fields == self.fields,
            r.additional == self.additional,
            r.skip_on_field_errors == self.skip_on_field_errors,
    {
        let r = self.rule(CrossFieldRule::Ordered { first: String::from_str(first), second: String::from_str(second), or_equal: true });
        proof { assert(r.rules@.drop_last() =~= self.rules@); }
        r
    }
}

/// The validated fields of an object, as cross-field rules see them.
pub struct ValidatedObject {
    pub fields: Vec<Member>,
}

impl ValidatedObject {
    /// The validated value of a field, if present.
    pub fn get(&self, field: &str) -> (r: Option<&JsonValue>)
        ensures
            r is None <==> prop_get(members_view(self.fields@), field@) is None,
            r is Some ==> prop_get(members_view(self.fields@), field@) == Some(r->Some_0@),
    {
        member_get(&self.fields, field)
    }

    /// Whether a field is present with a value other than null.
    pub fn has(&self, field: &str) -> (r: bool)
        ensures
            r == prop_has(members_view(self.fields@), field@),
    {
        member_has(&self.fields, field)
    }
}

} // verus!
