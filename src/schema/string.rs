//! String schemas: a type check, optional transforms, then every constraint.

use vstd::prelude::*;
use crate::error::{opt_view, ErrorModel, SchemaError, SchemaErrors, Validation, errs_view, full_error};
use crate::json::{Json, JsonValue, kind_name};
use crate::path::{JsonPath, Seg};
use crate::schema::formats::{email_ok, url_ok, uuid_ok, date_ok, datetime_ok, ipv4_ok, ipv6_ok,
    validate_email, validate_url, validate_uuid, validate_date, validate_datetime, validate_ip,
    validate_ipv4, validate_ipv6};
use crate::schema::numeric::{msg_or, message_or, opt_seq, settle, type_error};
use crate::schema::pattern::{CompiledPattern, PatternError, regex_compiles, regex_finds};
use crate::text::{nat_text, push_decimal, has_prefix, has_suffix, has_infix, text_eq,
    text_starts_with, text_ends_with, text_contains};

verus! {

/// The string formats a schema can require.
#[derive(Debug, Clone, Copy, PartialEq, Eq)]
pub enum Format {
    Email,
    Url,
    Uuid,
    Date,
    DateTime,
    Ip,
    Ipv4,
    Ipv6,
}

/// A transform applied to the string before the constraints are checked.
#[derive(Debug, Clone, Copy, PartialEq, Eq)]
pub enum Transform {
    Trim,
    Lowercase,
}

/// One string constraint, with an optional message that replaces the default one.
#[derive(Clone, Debug)]
pub enum StringConstraint {
    MinLength { min: usize, message: Option<String> },
    MaxLength { max: usize, message: Option<String> },
    Pattern { regex: CompiledPattern, message: Option<String> },
    Format { format: Format, message: Option<String> },
    OneOf { values: Vec<String>, message: Option<String> },
    StartsWith { prefix: String, message: Option<String> },
    EndsWith { suffix: String, message: Option<String> },
    Contains { substring: String, message: Option<String> },
}

/// Whether a character has the Unicode `White_Space` property.
pub open spec fn is_white_space(c: char) -> bool {
    let u = c as int;
    (9 <= u <= 13) || u == 32 || u == 0x85 || u == 0xA0 || u == 0x1680 || (0x2000 <= u <= 0x200A)
        || u == 0x2028 || u == 0x2029 || u == 0x202F || u == 0x205F || u == 0x3000
}

/// The string without its leading whitespace.
pub open spec fn trim_start(s: Seq<char>) -> Seq<char>
    decreases s.len(),
{
    if s.len() > 0 && is_white_space(s[0]) {
        trim_start(s.drop_first())
    } else {
        s
    }
}

/// The string without its trailing whitespace.
pub open spec fn trim_end(s: Seq<char>) -> Seq<char>
    decreases s.len(),
{
    if s.len() > 0 && is_white_space(s.last()) {
        trim_end(s.drop_last())
    } else {
        s
    }
}

/// The string without leading and trailing whitespace.
pub open spec fn trimmed(s: Seq<char>) -> Seq<char> {
    trim_end(trim_start(s))
}

/// What `str::to_lowercase` makes of a string.
pub uninterp spec fn lowered(s: Seq<char>) -> Seq<char>;

/// Relies on `str::trim`: the string without leading and trailing whitespace,
/// whitespace being the characters with the Unicode `White_Space` property.
#[verifier::external_body]
fn trim_text(s: &str) -> (r: String)
    ensures
        r@ == trimmed(s@),
{
    s.trim().to_string()
}

/// Relies on `str::to_lowercase`: the lowercase form of the string.
#[verifier::external_body]
fn lowercase_text(s: &str) -> (r: String)
    ensures
        r@ == lowered(s@),
{
    s.to_lowercase()
}

/// The string after the transforms, applied in order.
pub open spec fn transformed(ts: Seq<Transform>, s: Seq<char>) -> Seq<char>
    decreases ts.len(),
{
    if ts.len() == 0 {
        s
    } else {
        let before = transformed(ts.drop_last(), s);
        match ts.last() {
            Transform::Trim => trimmed(before),
            Transform::Lowercase => lowered(before),
        }
    }
}

/// Whether `s` meets a format.
pub open spec fn format_ok(f: Format, s: Seq<char>) -> bool {
    match f {
        Format::Email => email_ok(s),
        Format::Url => url_ok(s),
        Format::Uuid => uuid_ok(s),
        Format::Date => date_ok(s),
        Format::DateTime => datetime_ok(s),
        Format::Ip => ipv4_ok(s) || ipv6_ok(s),
        Format::Ipv4 => ipv4_ok(s),
        Format::Ipv6 => ipv6_ok(s),
    }
}

/// The name a format goes by in messages.
pub open spec fn format_name(f: Format) -> Seq<char> {
    match f {
        Format::Email => "valid email"@,
        Format::Url => "valid URL"@,
        Format::Uuid => "valid UUID"@,
        Format::Date => "valid date (YYYY-MM-DD)"@,
        Format::DateTime => "valid ISO 8601 datetime"@,
        Format::Ip => "valid IP address"@,
        Format::Ipv4 => "valid IPv4 address"@,
        Format::Ipv6 => "valid IPv6 address"@,
    }
}

/// The error code of a format.
pub open spec fn format_code(f: Format) -> Seq<char> {
    match f {
        Format::Email => "invalid_email"@,
        Format::Url => "invalid_url"@,
        Format::Uuid => "invalid_uuid"@,
        Format::Date => "invalid_date"@,
        Format::DateTime => "invalid_datetime"@,
        Format::Ip => "invalid_ip"@,
        Format::Ipv4 => "invalid_ipv4"@,
        Format::Ipv6 => "invalid_ipv6"@,
    }
}

/// The views of a list of strings.
pub open spec fn strs_view(v: Seq<String>) -> Seq<Seq<char>> {
    Seq::new(v.len(), |i: int| v[i]@)
}

/// The strings joined with `sep` between them.
pub open spec fn joined(v: Seq<Seq<char>>, sep: Seq<char>) -> Seq<char>
    decreases v.len(),
{
    if v.len() == 0 {
        Seq::empty()
    } else if v.len() == 1 {
        v[0]
    } else {
        joined(v.drop_last(), sep) + sep + v.last()
    }
}

/// The error a constraint reports for `s`, if `s` breaks it.
pub open spec fn str_violation(c: StringConstraint, s: Seq<char>, path: Seq<Seg>) -> Option<ErrorModel> {
    match c {
        StringConstraint::MinLength { min, message } => if s.len() < min {
            Some(full_error(path, msg_or(message, "length must be at least "@ + nat_text(min as nat) + ", got "@ + nat_text(s.len())),
                "min_length"@, nat_text(s.len()) + " characters"@, "at least "@ + nat_text(min as nat) + " characters"@))
        } else {
            None
        },
        StringConstraint::MaxLength { max, message } => if s.len() > max {
            Some(full_error(path, msg_or(message, "length must be at most "@ + nat_text(max as nat) + ", got "@ + nat_text(s.len())),
                "max_length"@, nat_text(s.len()) + " characters"@, "at most "@ + nat_text(max as nat) + " characters"@))
        } else {
            None
        },
        StringConstraint::Pattern { regex, message } => if !regex_finds(regex.source(), s) {
            Some(full_error(path, msg_or(message, "must match pattern '"@ + regex.source() + "'"@),
                "pattern"@, s, "string matching '"@ + regex.source() + "'"@))
        } else {
            None
        },
        StringConstraint::Format { format, message } => if !format_ok(format, s) {
            Some(full_error(path, msg_or(message, "must be "@ + format_name(format)),
                format_code(format), s, format_name(format)))
        } else {
            None
        },
        StringConstraint::OneOf { values, message } => if !strs_view(values@).contains(s) {
            Some(full_error(path, msg_or(message, "must be one of: "@ + joined(strs_view(values@), ", "@)),
                "invalid_enum"@, s, "one of: "@ + joined(strs_view(values@), ", "@)))
        } else {
            None
        },
        StringConstraint::StartsWith { prefix, message } => if !has_prefix(s, prefix@) {
            Some(full_error(path, msg_or(message, "must start with '"@ + prefix@ + "'"@),
                "invalid_prefix"@, s, "string starting with '"@ + prefix@ + "'"@))
        } else {
            None
        },
        StringConstraint::EndsWith { suffix, message } => if !has_suffix(s, suffix@) {
            Some(full_error(path, msg_or(message, "must end with '"@ + suffix@ + "'"@),
                "invalid_suffix"@, s, "string ending with '"@ + suffix@ + "'"@))
        } else {
            None
        },
        StringConstraint::Contains { substring, message } => if !has_infix(s, substring@) {
            Some(full_error(path, msg_or(message, "must contain '"@ + substring@ + "'"@),
                "invalid_substring"@, s, "string containing '"@ + substring@ + "'"@))
        } else {
            None
        },
    }
}

/// Every violation of the constraints by `s`, in constraint order.
pub open spec fn str_violations(cs: Seq<StringConstraint>, s: Seq<char>, path: Seq<Seg>) -> Seq<ErrorModel>
    decreases cs.len(),
{
    if cs.len() == 0 {
        Seq::empty()
    } else {
        str_violations(cs.drop_last(), s, path) + opt_seq(str_violation(cs.last(), s, path))
    }
}

/// A schema for strings.
#[derive(Clone, Debug)]
pub struct StringSchema {
    pub constraints: Vec<StringConstraint>,
    pub transforms: Vec<Transform>,
    pub type_error_message: Option<String>,
}

/// What a string schema makes of an already transformed string.
pub open spec fn checked_outcome(s: StringSchema, t: Seq<char>, path: Seq<Seg>) -> Validation<Seq<char>, Seq<ErrorModel>> {
    settle(str_violations(s.constraints@, t, path), t)
}

/// What a string schema makes of a value.
pub open spec fn string_outcome(s: StringSchema, v: Json, path: Seq<Seg>) -> Validation<Seq<char>, Seq<ErrorModel>> {
    match v {
        Json::Str(t) => checked_outcome(s, transformed(s.transforms@, t), path),
        _ => Validation::Failure(seq![full_error(path, msg_or(s.type_error_message, "expected string"@),
            "invalid_type"@, kind_name(v), "string"@)]),
    }
}

/// The strings joined with `, `.
fn join_values(values: &Vec<String>) -> (r: String)
    ensures
        r@ == joined(strs_view(values@), ", "@),
{
    proof { reveal_strlit(", "); }
    let mut out = String::new();
    let mut i: usize = 0;
    while i < values.len()
        invariant
            i <= values.len(),
            out@ == joined(strs_view(values@.subrange(0, i as int)), ", "@),
        decreases values.len() - i,
    {
        let ghost pre = strs_view(values@.subrange(0, i as int));
        proof {
            assert(strs_view(values@.subrange(0, i + 1)).drop_last() =~= pre);
            assert(strs_view(values@.subrange(0, i + 1)).last() == values@[i as int]@);
        }
        if i > 0 {
            out.append(", ");
        }
        out.append(values[i].as_str());
        i = i + 1;
        proof {
            if i == 1 {
                assert(strs_view(values@.subrange(0, 1)) =~= seq![values@[0]@]);
            }
        }
    }
    proof { assert(values@.subrange(0, i as int) =~= values@); }
    out
}

fn contains_value(values: &Vec<String>, s: &str) -> (r: bool)
    ensures
        r == strs_view(values@).contains(s@),
{
    let mut i: usize = 0;
    while i < values.len()
        invariant
            i <= values.len(),
            forall|j: int| 0 <= j < i ==> values@[j]@ != s@,
        decreases values.len() - i,
    {
        if text_eq(values[i].as_str(), s) {
            proof { assert(strs_view(values@)[i as int] == s@); }
            return true;
        }
        i = i + 1;
    }
    proof {
        if strs_view(values@).contains(s@) {
            let j = choose|j: int| 0 <= j < strs_view(values@).len() && strs_view(values@)[j] == s@;
            assert(values@[j]@ == s@);
        }
    }
    false
}

fn check_format(f: Format, s: &str) -> (r: bool)
    ensures
        r == format_ok(f, s@),
{
    match f {
        Format::Email => validate_email(s),
        Format::Url => validate_url(s),
        Format::Uuid => validate_uuid(s),
        Format::Date => validate_date(s),
        Format::DateTime => validate_datetime(s),
        Format::Ip => validate_ip(s),
        Format::Ipv4 => validate_ipv4(s),
        Format::Ipv6 => validate_ipv6(s),
    }
}

fn format_label(f: Format) -> (r: (&'static str, &'static str))
    ensures
        r.0@ == format_name(f),
        r.1@ == format_code(f),
{
    proof {
        reveal_strlit("valid email");
        reveal_strlit("invalid_email");
        reveal_strlit("valid URL");
        reveal_strlit("invalid_url");
        reveal_strlit("valid UUID");
        reveal_strlit("invalid_uuid");
        reveal_strlit("valid date (YYYY-MM-DD)");
        reveal_strlit("invalid_date");
        reveal_strlit("valid ISO 8601 datetime");
        reveal_strlit("invalid_datetime");
        reveal_strlit("valid IP address");
        reveal_strlit("invalid_ip");
        reveal_strlit("valid IPv4 address");
        reveal_strlit("invalid_ipv4");
        reveal_strlit("valid IPv6 address");
        reveal_strlit("invalid_ipv6");
    }
    match f {
        Format::Email => ("valid email", "invalid_email"),
        Format::Url => ("valid URL", "invalid_url"),
        Format::Uuid => ("valid UUID", "invalid_uuid"),
        Format::Date => ("valid date (YYYY-MM-DD)", "invalid_date"),
        Format::DateTime => ("valid ISO 8601 datetime", "invalid_datetime"),
        Format::Ip => ("valid IP address", "invalid_ip"),
        Format::Ipv4 => ("valid IPv4 address", "invalid_ipv4"),
        Format::Ipv6 => ("valid IPv6 address", "invalid_ipv6"),
    }
}

/// `before`, then `middle`, then `after`.
fn framed(before: &str, middle: &str, after: &str) -> (r: String)
    ensures
        r@ == before@ + middle@ + after@,
{
    let mut out = String::from_str(before);
    out.append(middle);
    out.append(after);
    out
}

/// The error of a pattern constraint on `s`, given whether the pattern was found in it.
pub fn pattern_error(pattern: &str, message: &Option<String>, s: &str, path: &JsonPath, found: bool) -> (r: Option<SchemaError>)
    ensures
        found ==> r is None,
        !found ==> r is Some && r->Some_0@ == full_error(path@, msg_or(*message, "must match pattern '"@ + pattern@ + "'"@),
            "pattern"@, s@, "string matching '"@ + pattern@ + "'"@),
{
    proof {
        reveal_strlit("must match pattern '");
        reveal_strlit("'");
        reveal_strlit("string matching '");
    }
    if found {
        None
    } else {
        let d = framed("must match pattern '", pattern, "'");
        let x = framed("string matching '", pattern, "'");
        Some(type_error(path, message_or(message, d), "pattern", s, x.as_str()))
    }
}

/// The error of a format constraint on `s`, given whether `s` has the format.
pub fn format_error(format: Format, message: &Option<String>, s: &str, path: &JsonPath, valid: bool) -> (r: Option<SchemaError>)
    ensures
        valid ==> r is None,
        !valid ==> r is Some && r->Some_0@ == full_error(path@, msg_or(*message, "must be "@ + format_name(format)),
            format_code(format), s@, format_name(format)),
{
    proof {
        reveal_strlit("must be ");
        reveal_strlit("");
    }
    if valid {
        None
    } else {
        let (name, code) = format_label(format);
        let d = framed("must be ", name, "");
        proof { assert(d@ =~= "must be "@ + format_name(format)); }
        Some(type_error(path, message_or(message, d), code, s, name))
    }
}

fn check_constraint(c: &StringConstraint, s: &str, path: &JsonPath) -> (r: Option<SchemaError>)
    ensures
        match r {
            Some(e) => str_violation(*c, s@, path@) == Some(e@),
            None => str_violation(*c, s@, path@) is None,
        },
{
    proof {
        reveal_strlit("length must be at least ");
        reveal_strlit("length must be at most ");
        reveal_strlit(", got ");
        reveal_strlit(" characters");
        reveal_strlit("at least ");
        reveal_strlit("at most ");
        reveal_strlit("must match pattern '");
        reveal_strlit("'");
        reveal_strlit("string matching '");
        reveal_strlit("must be ");
        reveal_strlit("must be one of: ");
        reveal_strlit("one of: ");
        reveal_strlit("must start with '");
        reveal_strlit("string starting with '");
        reveal_strlit("must end with '");
        reveal_strlit("string ending with '");
        reveal_strlit("must contain '");
        reveal_strlit("string containing '");
    }
    match c {
        StringConstraint::MinLength { min, message } => {
            let len = s.unicode_len();
            if len < *min {
                let mut d = String::from_str("length must be at least ");
                push_decimal(&mut d, *min as u64);
                d.append(", got ");
                push_decimal(&mut d, len as u64);
                let mut got = String::new();
                push_decimal(&mut got, len as u64);
                got.append(" characters");
                let mut x = String::from_str("at least ");
                push_decimal(&mut x, *min as u64);
                x.append(" characters");
                proof { assert(got@ =~= nat_text(len as nat) + " characters"@); }
                Some(type_error(path, message_or(message, d), "min_length", got.as_str(), x.as_str()))
            } else {
                None
            }
        },
        StringConstraint::MaxLength { max, message } => {
            let len = s.unicode_len();
            if len > *max {
                let mut d = String::from_str("length must be at most ");
                push_decimal(&mut d, *max as u64);
                d.append(", got ");
                push_decimal(&mut d, len as u64);
                let mut got = String::new();
                push_decimal(&mut got, len as u64);
                got.append(" characters");
                let mut x = String::from_str("at most ");
                push_decimal(&mut x, *max as u64);
                x.append(" characters");
                proof { assert(got@ =~= nat_text(len as nat) + " characters"@); }
                Some(type_error(path, message_or(message, d), "max_length", got.as_str(), x.as_str()))
            } else {
                None
            }
        },
        StringConstraint::Pattern { regex, message } => {
            let found = regex.is_match(s);
            pattern_error(regex.as_str(), message, s, path, found)
        },
        StringConstraint::Format { format, message } => {
            let valid = check_format(*format, s);
            format_error(*format, message, s, path, valid)
        },
        StringConstraint::OneOf { values, message } => {
            if !contains_value(values, s) {
                let all = join_values(values);
                let d = framed("must be one of: ", all.as_str(), "");
                let x = framed("one of: ", all.as_str(), "");
                proof {
                    reveal_strlit("");
                    assert(d@ =~= "must be one of: "@ + all@);
                    assert(x@ =~= "one of: "@ + all@);
                }
                Some(type_error(path, message_or(message, d), "invalid_enum", s, x.as_str()))
            } else {
                None
            }
        },
        StringConstraint::StartsWith { prefix, message } => {
            if !text_starts_with(s, prefix.as_str()) {
                let d = framed("must start with '", prefix.as_str(), "'");
                let x = framed("string starting with '", prefix.as_str(), "'");
                Some(type_error(path, message_or(message, d), "invalid_prefix", s, x.as_str()))
            } else {
                None
            }
        },
        StringConstraint::EndsWith { suffix, message } => {
            if !text_ends_with(s, suffix.as_str()) {
                let d = framed("must end with '", suffix.as_str(), "'");
                let x = framed("string ending with '", suffix.as_str(), "'");
                Some(type_error(path, message_or(message, d), "invalid_suffix", s, x.as_str()))
            } else {
                None
            }
        },
        StringConstraint::Contains { substring, message } => {
            if !text_contains(s, substring.as_str()) {
                let d = framed("must contain '", substring.as_str(), "'");
                let x = framed("string containing '", substring.as_str(), "'");
                Some(type_error(path, message_or(message, d), "invalid_substring", s, x.as_str()))
            } else {
                None
            }
        },
    }
}

impl StringSchema {
    pub fn new() -> (r: StringSchema)
        ensures
            r.constraints@.len() == 0,
            r.transforms@.len() == 0,
            r.type_error_message is None,
    {
        StringSchema { constraints: Vec::new(), transforms: Vec::new(), type_error_message: None }
    }

    fn with_constraint(self, c: StringConstraint) -> (r: StringSchema)
        ensures
            r.constraints@ == self.constraints@.push(c),
            r.transforms == self.transforms,
            r.type_error_message == self.type_error_message,
    {
        let mut s = self;
        s.constraints.push(c);
        s
    }

    pub fn min_len(self, min: usize) -> (r: StringSchema)
        ensures
            r.constraints@ == self.constraints@.push(StringConstraint::MinLength { min, message: None }),
            r.transforms == self.transforms,
            r.type_error_message == self.type_error_message,
    {
        self.with_constraint(StringConstraint::MinLength { min, message: None })
    }

    pub fn max_len(self, max: usize) -> (r: StringSchema)
        ensures
            r.constraints@ == self.constraints@.push(StringConstraint::MaxLength { max, message: None }),
            r.transforms == self.transforms,
            r.type_error_message == self.type_error_message,
    {
        self.with_constraint(StringConstraint::MaxLength { max, message: None })
    }

    /// Adds a regular-expression constraint; fails when the pattern does not compile.
    pub fn pattern(self, pattern: &str) -> (r: Result<StringSchema, PatternError>)
        ensures
            r is Ok <==> regex_compiles(pattern@),
            r is Err ==> r->Err_0.pattern@ == pattern@,
            r is Ok ==> ({
                let s = r->Ok_0;
                &&& s.constraints@.len() == self.constraints@.len() + 1
                &&& s.constraints@.drop_last() == self.constraints@
                &&& s.constraints@.last() matches StringConstraint::Pattern { regex, message }
                    && regex.source() == pattern@ && message is None
                &&& s.transforms == self.transforms
                &&& s.type_error_message == self.type_error_message
            }),
    {
        match CompiledPattern::compile(pattern) {
            Ok(regex) => {
                let r = self.with_constraint(StringConstraint::Pattern { regex, message: None });
                proof { assert(r.constraints@.drop_last() =~= self.constraints@); }
                Ok(r)
            },
            Err(e) => Err(e),
        }
    }

    pub fn format(self, format: Format) -> (r: StringSchema)
        ensures
            r.constraints@ == self.constraints@.push(StringConstraint::Format { format, message: None }),
            r.transforms == self.transforms,
            r.type_error_message == self.type_error_message,
    {
        self.with_constraint(StringConstraint::Format { format, message: None })
    }

    pub fn email(self) -> (r: StringSchema)
        ensures
            r.constraints@ == self.constraints@.push(StringConstraint::Format { format: Format::Email, message: None }),
            r.transforms == self.transforms,
            r.type_error_message == self.type_error_message,
    {
        self.format(Format::Email)
    }

    pub fn url(self) -> (r: StringSchema)
        ensures
            r.constraints@ == self.constraints@.push(StringConstraint::Format { format: Format::Url, message: None }),
            r.transforms == self.transforms,
            r.type_error_message == self.type_error_message,
    {
        self.format(Format::Url)
    }

    pub fn uuid(self) -> (r: StringSchema)
        ensures
            r.constraints@ == self.constraints@.push(StringConstraint::Format { format: Format::Uuid, message: None }),
            r.transforms == self.transforms,
            r.type_error_message == self.type_error_message,
    {
        self.format(Format::Uuid)
    }

    pub fn date(self) -> (r: StringSchema)
        ensures
            r.constraints@ == self.constraints@.push(StringConstraint::Format { format: Format::Date, message: None }),
            r.transforms == self.transforms,
            r.type_error_message == self.type_error_message,
    {
        self.format(Format::Date)
    }

    pub fn datetime(self) -> (r: StringSchema)
        ensures
            r.constraints@ == self.constraints@.push(StringConstraint::Format { format: Format::DateTime, message: None }),
            r.transforms == self.transforms,
            r.type_error_message == self.type_error_message,
    {
        self.format(Format::DateTime)
    }

    pub fn ip(self) -> (r: StringSchema)
        ensures
            r.constraints@ == self.constraints@.push(StringConstraint::Format { format: Format::Ip, message: None }),
            r.transforms == self.transforms,
            r.type_error_message == self.type_error_message,
    {
        self.format(Format::Ip)
    }

    pub fn ipv4(self) -> (r: StringSchema)
        ensures
            r.constraints@ == self.constraints@.push(StringConstraint::Format { format: Format::Ipv4, message: None }),
            r.transforms == self.transforms,
            r.type_error_message == self.type_error_message,
    {
        self.format(Format::Ipv4)
    }

    pub fn ipv6(self) -> (r: StringSchema)
        ensures
            r.constraints@ == self.constraints@.push(StringConstraint::Format { format: Format::Ipv6, message: None }),
            r.transforms == self.transforms,
            r.type_error_message == self.type_error_message,
    {
        self.format(Format::Ipv6)
    }

    /// Requires the string to be one of `values`.
    pub fn one_of(self, values: &[&str]) -> (r: StringSchema)
        ensures
            r.constraints@.len() == self.constraints@.len() + 1,
            r.constraints@.drop_last() == self.constraints@,
            r.constraints@.last() matches StringConstraint::OneOf { values: vs, message }
                && strs_view(vs@) == Seq::new(values@.len(), |i: int| values@[i]@) && message is None,
            r.transforms == self.transforms,
            r.type_error_message == self.type_error_message,
    {
        let mut vs: Vec<String> = Vec::new();
        let mut i: usize = 0;
        while i < values.len()
            invariant
                i <= values@.len(),
                vs@.len() == i,
                forall|j: int| 0 <= j < i ==> #[trigger] vs@[j]@ == values@[j]@,
            decreases values@.len() - i,
        {
            vs.push(String::from_str(values[i]));
            i = i + 1;
        }
        let ghost vv = vs@;
        let r = self.with_constraint(StringConstraint::OneOf { values: vs, message: None });
        proof {
            assert(r.constraints@.drop_last() =~= self.constraints@);
            assert(strs_view(vv) =~= Seq::new(values@.len(), |i: int| values@[i]@));
        }
        r
    }

    pub fn starts_with(self, prefix: &str) -> (r: StringSchema)
        ensures
            r.constraints@.len() == self.constraints@.len() + 1,
            r.constraints@.drop_last() == self.constraints@,
            r.constraints@.last() matches StringConstraint::StartsWith { prefix: p, message } && p@ == prefix@ && message is None,
            r.transforms == self.transforms,
            r.type_error_message == self.type_error_message,
    {
        let r = self.with_constraint(StringConstraint::StartsWith { prefix: String::from_str(prefix), message: None });
        proof { assert(r.constraints@.drop_last() =~= self.constraints@); }
        r
    }

    pub fn ends_with(self, suffix: &str) -> (r: StringSchema)
        ensures
            r.constraints@.len() == self.constraints@.len() + 1,
            r.constraints@.drop_last() == self.constraints@,
            r.constraints@.last() matches StringConstraint::EndsWith { suffix: p, message } && p@ == suffix@ && message is None,
            r.transforms == self.transforms,
            r.type_error_message == self.type_error_message,
    {
        let r = self.with_constraint(StringConstraint::EndsWith { suffix: String::from_str(suffix), message: None });
        proof { assert(r.constraints@.drop_last() =~= self.constraints@); }
        r
    }

    pub fn contains(self, substring: &str) -> (r: StringSchema)
        ensures
            r.constraints@.len() == self.constraints@.len() + 1,
            r.constraints@.drop_last() == self.constraints@,
            r.constraints@.last() matches StringConstraint::Contains { substring: p, message } && p@ == substring@ && message is None,
            r.transforms == self.transforms,
            r.type_error_message == self.type_error_message,
    {
        let r = self.with_constraint(StringConstraint::Contains { substring: String::from_str(substring), message: None });
        proof { assert(r.constraints@.drop_last() =~= self.constraints@); }
        r
    }

    pub fn trim(self) -> (r: StringSchema)
        ensures
            r.constraints == self.constraints,
            r.transforms@ == self.transforms@.push(Transform::Trim),
            r.type_error_message == self.type_error_message,
    {
        let mut s = self;
        s.transforms.push(Transform::Trim);
        s
    }

    pub fn lowercase(self) -> (r: StringSchema)
        ensures
            r.constraints == self.constraints,
            r.transforms@ == self.transforms@.push(Transform::Lowercase),
            r.type_error_message == self.type_error_message,
    {
        let mut s = self;
        s.transforms.push(Transform::Lowercase);
        s
    }

    /// Sets the message of the last constraint added, or of the type check
    /// when there is no constraint yet.
    pub fn error(self, message: &str) -> (r: StringSchema)
        ensures
            r.transforms == self.transforms,
            self.constraints@.len() == 0 ==> r.constraints@ == self.constraints@
                && opt_view(r.type_error_message) == Some(message@),
            self.constraints@.len() > 0 ==> r.type_error_message == self.type_error_message
                && r.constraints@.len() == self.constraints@.len()
                && r.constraints@.drop_last() == self.constraints@.drop_last()
                && same_string_rule(r.constraints@.last(), self.constraints@.last())
                && opt_view(string_message_of(r.constraints@.last())) == Some(message@),
    {
        let mut s = self;
        let n = s.constraints.len();
        if n == 0 {
            s.type_error_message = Some(String::from_str(message));
            s
        } else {
            let last = s.constraints.pop().unwrap();
            let m = Some(String::from_str(message));
            let c = match last {
                StringConstraint::MinLength { min, .. } => StringConstraint::MinLength { min, message: m },
                StringConstraint::MaxLength { max, .. } => StringConstraint::MaxLength { max, message: m },
                StringConstraint::Pattern { regex, .. } => StringConstraint::Pattern { regex, message: m },
                StringConstraint::Format { format, .. } => StringConstraint::Format { format, message: m },
                StringConstraint::OneOf { values, .. } => StringConstraint::OneOf { values, message: m },
                StringConstraint::StartsWith { prefix, .. } => StringConstraint::StartsWith { prefix, message: m },
                StringConstraint::EndsWith { suffix, .. } => StringConstraint::EndsWith { suffix, message: m },
                StringConstraint::Contains { substring, .. } => StringConstraint::Contains { substring, message: m },
            };
            s.constraints.push(c);
            proof { assert(s.constraints@.drop_last() =~= self.constraints@.drop_last()); }
            s
        }
    }

    /// Checks every constraint against an already transformed string.
    pub fn check_transformed(&self, value: String, path: &JsonPath) -> (r: Validation<String, SchemaErrors>)
        ensures
            r@ == checked_outcome(*self, value@, path@),
    {
        let mut errors: Vec<SchemaError> = Vec::new();
        let mut i: usize = 0;
        while i < self.constraints.len()
            invariant
                i <= self.constraints.len(),
                errs_view(errors@) == str_violations(self.constraints@.subrange(0, i as int), value@, path@),
            decreases self.constraints.len() - i,
        {
            proof { assert(self.constraints@.subrange(0, i + 1).drop_last() =~= self.constraints@.subrange(0, i as int)); }
            match check_constraint(&self.constraints[i], value.as_str(), path) {
                Some(e) => {
                    errors.push(e);
                },
                None => {},
            }
            i = i + 1;
            proof { assert(errs_view(errors@) =~= str_violations(self.constraints@.subrange(0, i as int), value@, path@)); }
        }
        proof { assert(self.constraints@.subrange(0, i as int) =~= self.constraints@); }
        if errors.len() == 0 {
            Validation::Success(value)
        } else {
            Validation::Failure(SchemaErrors::from_vec(errors))
        }
    }

    /// Type-checks the value, applies the transforms in order, then reports
    /// every constraint the transformed string breaks.
    pub fn validate(&self, value: &JsonValue, path: &JsonPath) -> (r: Validation<String, SchemaErrors>)
        ensures
            r@ == string_outcome(*self, value@, path@),
    {
        proof {
            reveal_strlit("expected string");
            reveal_strlit("invalid_type");
            reveal_strlit("string");
        }
        match value {
            JsonValue::Str(s) => {
                let mut t = s.clone();
                let mut i: usize = 0;
                while i < self.transforms.len()
                    invariant
                        i <= self.transforms.len(),
                        *value == JsonValue::Str(*s),
                        t@ == transformed(self.transforms@.subrange(0, i as int), s@),
                    decreases self.transforms.len() - i,
                {
                    proof { assert(self.transforms@.subrange(0, i + 1).drop_last() =~= self.transforms@.subrange(0, i as int)); }
                    t = match self.transforms[i] {
                        Transform::Trim => trim_text(t.as_str()),
                        Transform::Lowercase => lowercase_text(t.as_str()),
                    };
                    i = i + 1;
                }
                proof { assert(self.transforms@.subrange(0, i as int) =~= self.transforms@); }
                self.check_transformed(t, path)
            },
            _ => {
                let m = message_or(&self.type_error_message, String::from_str("expected string"));
                Validation::Failure(SchemaErrors::single(type_error(path, m, "invalid_type", value.kind_name(), "string")))
            },
        }
    }
}

/// Whether two constraints are the same rule, messages aside.
pub open spec fn same_string_rule(c: StringConstraint, d: StringConstraint) -> bool {
    match (c, d) {
        (StringConstraint::MinLength { min: a, .. }, StringConstraint::MinLength { min: b, .. }) => a == b,
        (StringConstraint::MaxLength { max: a, .. }, StringConstraint::MaxLength { max: b, .. }) => a == b,
        (StringConstraint::Pattern { regex: a, .. }, StringConstraint::Pattern { regex: b, .. }) => a == b,
        (StringConstraint::Format { format: a, .. }, StringConstraint::Format { format: b, .. }) => a == b,
        (StringConstraint::OneOf { values: a, .. }, StringConstraint::OneOf { values: b, .. }) => a == b,
        (StringConstraint::StartsWith { prefix: a, .. }, StringConstraint::StartsWith { prefix: b, .. }) => a == b,
        (StringConstraint::EndsWith { suffix: a, .. }, StringConstraint::EndsWith { suffix: b, .. }) => a == b,
        (StringConstraint::Contains { substring: a, .. }, StringConstraint::Contains { substring: b, .. }) => a == b,
        _ => false,
    }
}

/// The custom message of a constraint.
pub open spec fn string_message_of(c: StringConstraint) -> Option<String> {
    match c {
        StringConstraint::MinLength { message, .. } => message,
        StringConstraint::MaxLength { message, .. } => message,
        StringConstraint::Pattern { message, .. } => message,
        StringConstraint::Format { message, .. } => message,
        StringConstraint::OneOf { message, .. } => message,
        StringConstraint::StartsWith { message, .. } => message,
        StringConstraint::EndsWith { message, .. } => message,
        StringConstraint::Contains { message, .. } => message,
    }
}

} // verus!
