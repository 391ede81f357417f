//! Integer schemas: a strict type check, then every sign and range constraint.

use vstd::prelude::*;
use crate::error::{opt_view, ErrorModel, SchemaError, SchemaErrors, Validation, errs_view, full_error};
use crate::json::{Json, JsonValue, kind_name};
use crate::path::{JsonPath, Seg};
use crate::text::{int_text, nat_text, push_decimal, push_signed};

verus! {

/// One integer constraint, with an optional message that replaces the default one.
#[derive(Debug, Clone)]
pub enum IntegerConstraint {
    Min { value: i64, message: Option<String> },
    Max { value: i64, message: Option<String> },
    Positive { message: Option<String> },
    NonNegative { message: Option<String> },
    Negative { message: Option<String> },
}

/// The custom message if there is one, else the default.
pub open spec fn msg_or(message: Option<String>, default: Seq<char>) -> Seq<char> {
    match message {
        Some(m) => m@,
        None => default,
    }
}

/// The custom message if there is one, else `default`.
pub fn message_or(message: &Option<String>, default: String) -> (r: String)
    ensures
        r@ == msg_or(*message, default@),
{
    match message {
        Some(m) => m.clone(),
        None => default,
    }
}

/// The error a constraint reports for `n`, if `n` breaks it.
pub open spec fn int_violation(c: IntegerConstraint, n: int, path: Seq<Seg>) -> Option<ErrorModel> {
    match c {
        IntegerConstraint::Min { value, message } => if n < value {
            Some(full_error(path, msg_or(message, "must be at least "@ + int_text(value as int) + ", got "@ + int_text(n)),
                "min_value"@, int_text(n), "at least "@ + int_text(value as int)))
        } else {
            None
        },
        IntegerConstraint::Max { value, message } => if n > value {
            Some(full_error(path, msg_or(message, "must be at most "@ + int_text(value as int) + ", got "@ + int_text(n)),
                "max_value"@, int_text(n), "at most "@ + int_text(value as int)))
        } else {
            None
        },
        IntegerConstraint::Positive { message } => if n <= 0 {
            Some(full_error(path, msg_or(message, "must be positive, got "@ + int_text(n)),
                "positive"@, int_text(n), "value > 0"@))
        } else {
            None
        },
        IntegerConstraint::NonNegative { message } => if n < 0 {
            Some(full_error(path, msg_or(message, "must be non-negative, got "@ + int_text(n)),
                "non_negative"@, int_text(n), "value >= 0"@))
        } else {
            None
        },
        IntegerConstraint::Negative { message } => if n >= 0 {
            Some(full_error(path, msg_or(message, "must be negative, got "@ + int_text(n)),
                "negative"@, int_text(n), "value < 0"@))
        } else {
            None
        },
    }
}

/// The list holding the error, if any.
pub open spec fn opt_seq(e: Option<ErrorModel>) -> Seq<ErrorModel> {
    match e {
        Some(x) => seq![x],
        None => Seq::empty(),
    }
}

/// Every violation of the constraints by `n`, in constraint order.
pub open spec fn int_violations(cs: Seq<IntegerConstraint>, n: int, path: Seq<Seg>) -> Seq<ErrorModel>
    decreases cs.len(),
{
    if cs.len() == 0 {
        Seq::empty()
    } else {
        int_violations(cs.drop_last(), n, path) + opt_seq(int_violation(cs.last(), n, path))
    }
}

/// Success with `v` when there are no errors, else failure with all of them.
pub open spec fn settle<T>(errors: Seq<ErrorModel>, v: T) -> Validation<T, Seq<ErrorModel>> {
    if errors.len() == 0 {
        Validation::Success(v)
    } else {
        Validation::Failure(errors)
    }
}

/// A schema for integers in the signed 64-bit range.
#[derive(Debug, Clone)]
pub struct IntegerSchema {
    pub constraints: Vec<IntegerConstraint>,
    pub type_error_message: Option<String>,
}

/// What an integer schema makes of a value.
pub open spec fn integer_outcome(s: IntegerSchema, v: Json, path: Seq<Seg>) -> Validation<i64, Seq<ErrorModel>> {
    match v {
        Json::Int(n) => settle(int_violations(s.constraints@, n, path), n as i64),
        Json::UInt(u) => if u <= i64::MAX {
            settle(int_violations(s.constraints@, u, path), u as i64)
        } else {
            Validation::Failure(seq![full_error(path, msg_or(s.type_error_message, "integer value too large for i64"@),
                "overflow"@, nat_text(u as nat), "integer in i64 range"@)])
        },
        Json::Float(_) => Validation::Failure(seq![full_error(path, msg_or(s.type_error_message, "expected integer, got float"@),
            "invalid_type"@, "float"@, "integer"@)]),
        _ => Validation::Failure(seq![full_error(path, msg_or(s.type_error_message, "expected integer"@),
            "invalid_type"@, kind_name(v), "integer"@)]),
    }
}

/// The error a failed type check reports.
pub fn type_error(path: &JsonPath, message: String, code: &str, got: &str, expected: &str) -> (r: SchemaError)
    ensures
        r@ == full_error(path@, message@, code@, got@, expected@),
{
    SchemaError::with_message(path.copy(), message).with_code(code).with_expected(expected).with_got(got)
}

fn check_constraint(c: &IntegerConstraint, n: i64, path: &JsonPath) -> (r: Option<SchemaError>)
    ensures
        match r {
            Some(e) => int_violation(*c, n as int, path@) == Some(e@),
            None => int_violation(*c, n as int, path@) is None,
        },
{
    proof {
        reveal_strlit("must be at least ");
        reveal_strlit(", got ");
        reveal_strlit("at least ");
        reveal_strlit("must be at most ");
        reveal_strlit("at most ");
        reveal_strlit("must be positive, got ");
        reveal_strlit("value > 0");
        reveal_strlit("must be non-negative, got ");
        reveal_strlit("value >= 0");
        reveal_strlit("must be negative, got ");
        reveal_strlit("value < 0");
    }
    let mut got = String::new();
    push_signed(&mut got, n);
    proof { assert(got@ =~= int_text(n as int)); }
    match c {
        IntegerConstraint::Min { value, message } => {
            if n < *value {
                let mut d = String::from_str("must be at least ");
                push_signed(&mut d, *value);
                d.append(", got ");
                d.append(got.as_str());
                let mut x = String::from_str("at least ");
                push_signed(&mut x, *value);
                Some(type_error(path, message_or(message, d), "min_value", got.as_str(), x.as_str()))
            } else {
                None
            }
        },
        IntegerConstraint::Max { value, message } => {
            if n > *value {
                let mut d = String::from_str("must be at most ");
                push_signed(&mut d, *value);
                d.append(", got ");
                d.append(got.as_str());
                let mut x = String::from_str("at most ");
                push_signed(&mut x, *value);
                Some(type_error(path, message_or(message, d), "max_value", got.as_str(), x.as_str()))
            } else {
                None
            }
        },
        IntegerConstraint::Positive { message } => {
            if n <= 0 {
                let mut d = String::from_str("must be positive, got ");
                d.append(got.as_str());
                Some(type_error(path, message_or(message, d), "positive", got.as_str(), "value > 0"))
            } else {
                None
            }
        },
        IntegerConstraint::NonNegative { message } => {
            if n < 0 {
                let mut d = String::from_str("must be non-negative, got ");
                d.append(got.as_str());
                Some(type_error(path, message_or(message, d), "non_negative", got.as_str(), "value >= 0"))
            } else {
                None
            }
        },
        IntegerConstraint::Negative { message } => {
            if n >= 0 {
                let mut d = String::from_str("must be negative, got ");
                d.append(got.as_str());
                Some(type_error(path, message_or(message, d), "negative", got.as_str(), "value < 0"))
            } else {
                None
            }
        },
    }
}

/// Relies on `RangeInclusive::start`: the lower bound of the range.
#[verifier::external_body]
fn range_start(r: &std::ops::RangeInclusive<i64>) -> (x: i64)
    ensures
        x == r@.start,
{
    *r.start()
}

/// Relies on `RangeInclusive::end`: the upper bound of the range.
#[verifier::external_body]
fn range_end(r: &std::ops::RangeInclusive<i64>) -> (x: i64)
    ensures
        x == r@.end,
{
    *r.end()
}

impl IntegerSchema {
    pub fn new() -> (r: IntegerSchema)
        ensures
            r.constraints@.len() == 0,
            r.type_error_message is None,
    {
        IntegerSchema { constraints: Vec::new(), type_error_message: None }
    }

    pub fn min(self, value: i64) -> (r: IntegerSchema)
        ensures
            r.constraints@ == self.constraints@.push(IntegerConstraint::Min { value, message: None }),
            r.type_error_message == self.type_error_message,
    {
        let mut s = self;
        s.constraints.push(IntegerConstraint::Min { value, message: None });
        s
    }

    pub fn max(self, value: i64) -> (r: IntegerSchema)
        ensures
            r.constraints@ == self.constraints@.push(IntegerConstraint::Max { value, message: None }),
            r.type_error_message == self.type_error_message,
    {
        let mut s = self;
        s.constraints.push(IntegerConstraint::Max { value, message: None });
        s
    }

    /// Both bounds of an inclusive range: a minimum, then a maximum.
    pub fn range(self, range: std::ops::RangeInclusive<i64>) -> (r: IntegerSchema)
        ensures
            r.constraints@ == self.constraints@.push(IntegerConstraint::Min { value: range@.start, message: None })
                .push(IntegerConstraint::Max { value: range@.end, message: None }),
            r.type_error_message == self.type_error_message,
    {
        let lo = range_start(&range);
        let hi = range_end(&range);
        self.min(lo).max(hi)
    }

    pub fn positive(self) -> (r: IntegerSchema)
        ensures
            r.constraints@ == self.constraints@.push(IntegerConstraint::Positive { message: None }),
            r.type_error_message == self.type_error_message,
    {
        let mut s = self;
        s.constraints.push(IntegerConstraint::Positive { message: None });
        s
    }

    pub fn non_negative(self) -> (r: IntegerSchema)
        ensures
            r.constraints@ == self.constraints@.push(IntegerConstraint::NonNegative { message: None }),
            r.type_error_message == self.type_error_message,
    {
        let mut s = self;
        s.constraints.push(IntegerConstraint::NonNegative { message: None });
        s
    }

    pub fn negative(self) -> (r: IntegerSchema)
        ensures
            r.constraints@ == self.constraints@.push(IntegerConstraint::Negative { message: None }),
            r.type_error_message == self.type_error_message,
    {
        let mut s = self;
        s.constraints.push(IntegerConstraint::Negative { message: None });
        s
    }

    /// Sets the message of the last constraint added, or of the type check
    /// when there is no constraint yet.
    pub fn error(self, message: &str) -> (r: IntegerSchema)
        ensures
            self.constraints@.len() == 0 ==> r.constraints@ == self.constraints@
                && opt_view(r.type_error_message) == Some(message@),
            self.constraints@.len() > 0 ==> r.type_error_message == self.type_error_message
                && r.constraints@.len() == self.constraints@.len()
                && r.constraints@.drop_last() == self.constraints@.drop_last()
                && same_rule(r.constraints@.last(), self.constraints@.last())
                && opt_view(message_of(r.constraints@.last())) == Some(message@),
    {
        let mut s = self;
        let n = s.constraints.len();
        if n == 0 {
            s.type_error_message = Some(String::from_str(message));
            s
        } else {
            let last = s.constraints.pop().unwrap();
            let m = Some(String::from_str(message));
            let c = match last {
                IntegerConstraint::Min { value, .. } => IntegerConstraint::Min { value, message: m },
                IntegerConstraint::Max { value, .. } => IntegerConstraint::Max { value, message: m },
                IntegerConstraint::Positive { .. } => IntegerConstraint::Positive { message: m },
                IntegerConstraint::NonNegative { .. } => IntegerConstraint::NonNegative { message: m },
                IntegerConstraint::Negative { .. } => IntegerConstraint::Negative { message: m },
            };
            s.constraints.push(c);
            proof { assert(s.constraints@.drop_last() =~= self.constraints@.drop_last()); }
            s
        }
    }

    /// Type-checks the value, then reports every constraint it breaks.
    pub fn validate(&self, value: &JsonValue, path: &JsonPath) -> (r: Validation<i64, SchemaErrors>)
        ensures
            r@ == integer_outcome(*self, value@, path@),
    {
        proof {
            reveal_strlit("integer value too large for i64");
            reveal_strlit("overflow");
            reveal_strlit("integer in i64 range");
            reveal_strlit("expected integer, got float");
            reveal_strlit("invalid_type");
            reveal_strlit("float");
            reveal_strlit("integer");
            reveal_strlit("expected integer");
        }
        let n: i64 = match value {
            JsonValue::Int(n) => *n,
            JsonValue::UInt(u) => {
                if *u <= i64::MAX as u64 {
                    *u as i64
                } else {
                    let mut got = String::new();
                    push_decimal(&mut got, *u);
                    let m = message_or(&self.type_error_message, String::from_str("integer value too large for i64"));
                    let e = type_error(path, m, "overflow", got.as_str(), "integer in i64 range");
                    let r = Validation::Failure(SchemaErrors::single(e));
                    proof { assert(got@ =~= nat_text(*u as nat)); }
                    return r;
                }
            },
            JsonValue::Float(_) => {
                let m = message_or(&self.type_error_message, String::from_str("expected integer, got float"));
                return Validation::Failure(SchemaErrors::single(type_error(path, m, "invalid_type", "float", "integer")));
            },
            _ => {
                let m = message_or(&self.type_error_message, String::from_str("expected integer"));
                return Validation::Failure(SchemaErrors::single(type_error(path, m, "invalid_type", value.kind_name(), "integer")));
            },
        };
        let mut errors: Vec<SchemaError> = Vec::new();
        let mut i: usize = 0;
        while i < self.constraints.len()
            invariant
                i <= self.constraints.len(),
                errs_view(errors@) == int_violations(self.constraints@.subrange(0, i as int), n as int, path@),
            decreases self.constraints.len() - i,
        {
            proof { assert(self.constraints@.subrange(0, i + 1).drop_last() =~= self.constraints@.subrange(0, i as int)); }
            let c = check_constraint(&self.constraints[i], n, path);
            match c {
                Some(e) => {
                    errors.push(e);
                },
                None => {},
            }
            i = i + 1;
            proof { assert(errs_view(errors@) =~= int_violations(self.constraints@.subrange(0, i as int), n as int, path@)); }
        }
        proof { assert(self.constraints@.subrange(0, i as int) =~= self.constraints@); }
        if errors.len() == 0 {
            Validation::Success(n)
        } else {
            Validation::Failure(SchemaErrors::from_vec(errors))
        }
    }
}

/// Whether two constraints are the same rule, messages aside.
pub open spec fn same_rule(c: IntegerConstraint, d: IntegerConstraint) -> bool {
    match (c, d) {
        (IntegerConstraint::Min { value: a, .. }, IntegerConstraint::Min { value: b, .. }) => a == b,
        (IntegerConstraint::Max { value: a, .. }, IntegerConstraint::Max { value: b, .. }) => a == b,
        (IntegerConstraint::Positive { .. }, IntegerConstraint::Positive { .. }) => true,
        (IntegerConstraint::NonNegative { .. }, IntegerConstraint::NonNegative { .. }) => true,
        (IntegerConstraint::Negative { .. }, IntegerConstraint::Negative { .. }) => true,
        _ => false,
    }
}

/// The custom message of a constraint.
pub open spec fn message_of(c: IntegerConstraint) -> Option<String> {
    match c {
        IntegerConstraint::Min { message, .. } => message,
        IntegerConstraint::Max { message, .. } => message,
        IntegerConstraint::Positive { message } => message,
        IntegerConstraint::NonNegative { message } => message,
        IntegerConstraint::Negative { message } => message,
    }
}

} // verus!
