//! Validation errors, non-empty error collections and the two-variant result.

use vstd::prelude::*;
use crate::path::{JsonPath, Seg, path_text};
use crate::text::{nat_text, push_decimal, text_eq};

verus! {

/// The mathematical form of one error.
pub struct ErrorModel {
    pub path: Seq<Seg>,
    pub message: Seq<char>,
    pub got: Option<Seq<char>>,
    pub expected: Option<Seq<char>>,
    pub code: Seq<char>,
}

/// A single validation error: where, what, a machine-readable code, and
/// optionally what was found and what was expected.
#[derive(Debug, Clone, PartialEq)]
pub struct SchemaError {
    pub path: JsonPath,
    pub message: String,
    pub got: Option<String>,
    pub expected: Option<String>,
    pub code: String,
}

pub open spec fn opt_view(o: Option<String>) -> Option<Seq<char>> {
    match o {
        Some(s) => Some(s@),
        None => None,
    }
}

impl View for SchemaError {
    type V = ErrorModel;

    open spec fn view(&self) -> ErrorModel {
        ErrorModel {
            path: self.path@,
            message: self.message@,
            got: opt_view(self.got),
            expected: opt_view(self.expected),
            code: self.code@,
        }
    }
}

/// An error with the given location, message and code, and nothing else.
pub open spec fn plain_error(path: Seq<Seg>, message: Seq<char>, code: Seq<char>) -> ErrorModel {
    ErrorModel { path, message, got: None, expected: None, code }
}

/// An error that also records what was found and what was expected.
pub open spec fn full_error(
    path: Seq<Seg>,
    message: Seq<char>,
    code: Seq<char>,
    got: Seq<char>,
    expected: Seq<char>,
) -> ErrorModel {
    ErrorModel { path, message, got: Some(got), expected: Some(expected), code }
}

fn copy_opt(o: &Option<String>) -> (r: Option<String>)
    ensures
        opt_view(r) == opt_view(*o),
{
    match o {
        Some(s) => Some(s.clone()),
        None => None,
    }
}

/// How one error prints: `path: message (expected: ...) (got: ...)`, with
/// `(root)` for the empty path.
pub open spec fn error_text(e: ErrorModel) -> Seq<char> {
    let place = if e.path.len() == 0 { "(root)"@ } else { path_text(e.path) };
    let base = place + ": "@ + e.message;
    let with_expected = match e.expected {
        Some(x) => base + " (expected: "@ + x + ")"@,
        None => base,
    };
    match e.got {
        Some(g) => with_expected + " (got: "@ + g + ")"@,
        None => with_expected,
    }
}

impl SchemaError {
    /// An error at `path` with `message` and the generic code `validation_error`.
    pub fn new(path: JsonPath, message: &str) -> (r: SchemaError)
        ensures
            r@ == plain_error(path@, message@, "validation_error"@),
    {
        SchemaError::with_message(path, String::from_str(message))
    }

    /// As `new`, taking the message by value.
    pub fn with_message(path: JsonPath, message: String) -> (r: SchemaError)
        ensures
            r@ == plain_error(path@, message@, "validation_error"@),
    {
        SchemaError {
            path,
            message,
            got: None,
            expected: None,
            code: String::from_str("validation_error"),
        }
    }

    pub fn with_code(self, code: &str) -> (r: SchemaError)
        ensures
            r@ == (ErrorModel { code: code@, ..self@ }),
    {
        SchemaError { code: String::from_str(code), ..self }
    }

    pub fn with_got(self, got: &str) -> (r: SchemaError)
        ensures
            r@ == (ErrorModel { got: Some(got@), ..self@ }),
    {
        SchemaError { got: Some(String::from_str(got)), ..self }
    }

    pub fn with_expected(self, expected: &str) -> (r: SchemaError)
        ensures
            r@ == (ErrorModel { expected: Some(expected@), ..self@ }),
    {
        SchemaError { expected: Some(String::from_str(expected)), ..self }
    }

    pub fn copy(&self) -> (r: SchemaError)
        ensures
            r@ == self@,
    {
        SchemaError {
            path: self.path.copy(),
            message: self.message.clone(),
            got: copy_opt(&self.got),
            expected: copy_opt(&self.expected),
            code: self.code.clone(),
        }
    }

    /// Whether two errors agree in every field.
    pub fn same(&self, other: &SchemaError) -> (r: bool)
        ensures
            r == (self@ == other@),
    {
        let same_got = match (&self.got, &other.got) {
            (Some(a), Some(b)) => a.eq(b),
            (None, None) => true,
            _ => false,
        };
        let same_expected = match (&self.expected, &other.expected) {
            (Some(a), Some(b)) => a.eq(b),
            (None, None) => true,
            _ => false,
        };
        let r = self.path.same(&other.path) && self.message.eq(&other.message) && same_got
            && same_expected && self.code.eq(&other.code);
        proof {
            if !same_got {
                assert(opt_view(self.got) != opt_view(other.got));
            }
            if !same_expected {
                assert(opt_view(self.expected) != opt_view(other.expected));
            }
            if r {
                assert(self@ == other@);
            }
        }
        r
    }

    /// The printed form: `path: message (expected: ...) (got: ...)`.
    pub fn to_string(&self) -> (r: String)
        ensures
            r@ == error_text(self@),
    {
        proof {
            reveal_strlit("(root)");
            reveal_strlit(": ");
            reveal_strlit(" (expected: ");
            reveal_strlit(")");
            reveal_strlit(" (got: ");
        }
        let mut out = if self.path.is_root() {
            String::from_str("(root)")
        } else {
            self.path.to_string()
        };
        out.append(": ");
        out.append(self.message.as_str());
        match &self.expected {
            Some(x) => {
                out.append(" (expected: ");
                out.append(x.as_str());
                out.append(")");
            },
            None => {},
        }
        match &self.got {
            Some(g) => {
                out.append(" (got: ");
                out.append(g.as_str());
                out.append(")");
            },
            None => {},
        }
        out
    }
}

/// The views of a list of errors.
pub open spec fn errs_view(s: Seq<SchemaError>) -> Seq<ErrorModel> {
    Seq::new(s.len(), |i: int| s[i]@)
}

/// The errors of `s` at `path`, in order.
pub open spec fn errors_at(s: Seq<ErrorModel>, path: Seq<Seg>) -> Seq<ErrorModel>
    decreases s.len(),
{
    if s.len() == 0 {
        Seq::empty()
    } else if s.last().path == path {
        errors_at(s.drop_last(), path).push(s.last())
    } else {
        errors_at(s.drop_last(), path)
    }
}

/// The errors of `s` with `code`, in order.
pub open spec fn errors_with_code(s: Seq<ErrorModel>, code: Seq<char>) -> Seq<ErrorModel>
    decreases s.len(),
{
    if s.len() == 0 {
        Seq::empty()
    } else if s.last().code == code {
        errors_with_code(s.drop_last(), code).push(s.last())
    } else {
        errors_with_code(s.drop_last(), code)
    }
}

/// How a collection prints: a count line, then one numbered line per error.
pub open spec fn errors_text(s: Seq<ErrorModel>) -> Seq<char> {
    "Validation failed with "@ + nat_text(s.len()) + " error(s):\n"@ + numbered_lines(s, s.len() as int)
}

pub open spec fn numbered_lines(s: Seq<ErrorModel>, n: int) -> Seq<char>
    decreases n,
{
    if n <= 0 {
        Seq::empty()
    } else {
        numbered_lines(s, n - 1) + "  "@ + nat_text(n as nat) + ". "@ + error_text(s[n - 1]) + "\n"@
    }
}

/// A non-empty, ordered collection of errors, in the order the checks ran.
#[derive(Debug, PartialEq)]
pub struct SchemaErrors {
    errors: Vec<SchemaError>,
}

impl View for SchemaErrors {
    type V = Seq<ErrorModel>;

    closed spec fn view(&self) -> Seq<ErrorModel> {
        errs_view(self.errors@)
    }
}

impl SchemaErrors {
    #[verifier::type_invariant]
    spec fn non_empty(self) -> bool {
        self.errors@.len() > 0
    }

    pub fn single(error: SchemaError) -> (r: SchemaErrors)
        ensures
            r@ == seq![error@],
    {
        let mut errors = Vec::new();
        errors.push(error);
        let r = SchemaErrors { errors };
        proof { assert(r@ =~= seq![error@]); }
        r
    }

    /// The errors of a non-empty list, in order.
    pub fn from_vec(errors: Vec<SchemaError>) -> (r: SchemaErrors)
        requires
            errors@.len() > 0,
        ensures
            r@ == errs_view(errors@),
    {
        SchemaErrors { errors }
    }

    pub fn len(&self) -> (r: usize)
        ensures
            r == self@.len(),
            r > 0,
    {
        proof { use_type_invariant(self); }
        self.errors.len()
    }

    pub fn is_empty(&self) -> (r: bool)
        ensures
            r == (self@.len() == 0),
            !r,
    {
        proof { use_type_invariant(self); }
        false
    }

    /// The errors in order.
    pub fn iter(&self) -> (r: Vec<&SchemaError>)
        ensures
            r@.len() == self@.len(),
            forall|i: int| 0 <= i < r@.len() ==> r@[i]@ == #[trigger] self@[i],
    {
        let mut r: Vec<&SchemaError> = Vec::new();
        let mut i: usize = 0;
        while i < self.errors.len()
            invariant
                i <= self.errors.len(),
                r@.len() == i,
                forall|j: int| 0 <= j < i ==> #[trigger] r@[j]@ == self@[j],
            decreases self.errors.len() - i,
        {
            r.push(&self.errors[i]);
            i = i + 1;
        }
        r
    }

    /// The errors whose location is `path`, in order.
    pub fn at_path(&self, path: &JsonPath) -> (r: Vec<&SchemaError>)
        ensures
            errs_view_refs(r@) == errors_at(self@, path@),
    {
        let mut r: Vec<&SchemaError> = Vec::new();
        let mut i: usize = 0;
        while i < self.errors.len()
            invariant
                i <= self.errors.len(),
                errs_view_refs(r@) == errors_at(self@.subrange(0, i as int), path@),
            decreases self.errors.len() - i,
        {
            proof { assert(self@.subrange(0, i + 1).drop_last() =~= self@.subrange(0, i as int)); }
            if self.errors[i].path.same(path) {
                r.push(&self.errors[i]);
                proof {
                    assert(errs_view_refs(r@) =~= errs_view_refs(r@.drop_last()).push(r@.last()@));
                }
            }
            i = i + 1;
        }
        proof { assert(self@.subrange(0, i as int) =~= self@); }
        r
    }

    /// The errors whose code is `code`, in order.
    pub fn with_code(&self, code: &str) -> (r: Vec<&SchemaError>)
        ensures
            errs_view_refs(r@) == errors_with_code(self@, code@),
    {
        let mut r: Vec<&SchemaError> = Vec::new();
        let mut i: usize = 0;
        while i < self.errors.len()
            invariant
                i <= self.errors.len(),
                errs_view_refs(r@) == errors_with_code(self@.subrange(0, i as int), code@),
            decreases self.errors.len() - i,
        {
            proof { assert(self@.subrange(0, i + 1).drop_last() =~= self@.subrange(0, i as int)); }
            if text_eq(self.errors[i].code.as_str(), code) {
                r.push(&self.errors[i]);
                proof {
                    assert(errs_view_refs(r@) =~= errs_view_refs(r@.drop_last()).push(r@.last()@));
                }
            }
            i = i + 1;
        }
        proof { assert(self@.subrange(0, i as int) =~= self@); }
        r
    }

    /// A copy of the collection.
    pub fn copy(&self) -> (r: SchemaErrors)
        ensures
            r@ == self@,
    {
        proof { use_type_invariant(self); }
        let mut errors: Vec<SchemaError> = Vec::new();
        let mut i: usize = 0;
        while i < self.errors.len()
            invariant
                i <= self.errors.len(),
                errors@.len() == i,
                forall|j: int| 0 <= j < i ==> #[trigger] errors@[j]@ == self.errors@[j]@,
            decreases self.errors.len() - i,
        {
            errors.push(self.errors[i].copy());
            i = i + 1;
        }
        let r = SchemaErrors { errors };
        proof { assert(r@ =~= self@); }
        r
    }

    /// The first error.
    pub fn first(&self) -> (r: &SchemaError)
        ensures
            r@ == self@[0],
    {
        proof { use_type_invariant(self); }
        &self.errors[0]
    }

    /// The errors as a plain list, in order.
    pub fn into_vec(self) -> (r: Vec<SchemaError>)
        ensures
            errs_view(r@) == self@,
            r@.len() > 0,
    {
        proof { use_type_invariant(&self); }
        self.errors
    }

    /// All errors of `self`, then all errors of `other`.
    pub fn combine(self, other: SchemaErrors) -> (r: SchemaErrors)
        ensures
            r@ == self@ + other@,
    {
        proof {
            use_type_invariant(&self);
            use_type_invariant(&other);
        }
        let mut errors = self.errors;
        let mut more = other.errors;
        let ghost a = errors@;
        let ghost b = more@;
        errors.append(&mut more);
        let r = SchemaErrors { errors };
        proof { assert(errs_view(a + b) =~= errs_view(a) + errs_view(b)); }
        r
    }

    /// A count line, then one numbered line per error.
    pub fn to_string(&self) -> (r: String)
        ensures
            r@ == errors_text(self@),
    {
        proof {
            reveal_strlit("Validation failed with ");
            reveal_strlit(" error(s):\n");
            reveal_strlit("  ");
            reveal_strlit(". ");
            reveal_strlit("\n");
        }
        let mut out = String::from_str("Validation failed with ");
        push_decimal(&mut out, self.errors.len() as u64);
        out.append(" error(s):\n");
        let ghost head = out@;
        let mut i: usize = 0;
        while i < self.errors.len()
            invariant
                i <= self.errors.len(),
                out@ == head + numbered_lines(self@, i as int),
            decreases self.errors.len() - i,
        {
            out.append("  ");
            push_decimal(&mut out, (i + 1) as u64);
            out.append(". ");
            let line = self.errors[i].to_string();
            out.append(line.as_str());
            out.append("\n");
            i = i + 1;
            proof {
                assert(out@ =~= head + numbered_lines(self@, i as int));
            }
        }
        out
    }
}

impl Clone for SchemaErrors {
    fn clone(&self) -> (r: SchemaErrors)
        ensures
            r@ == self@,
    {
        self.copy()
    }
}

/// The views of a list of error references.
pub open spec fn errs_view_refs(s: Seq<&SchemaError>) -> Seq<ErrorModel> {
    Seq::new(s.len(), |i: int| s[i]@)
}

/// Combining error collections is associative: grouping does not change
/// which errors result, nor their order.
pub proof fn lemma_combine_associative(a: SchemaErrors, b: SchemaErrors, c: SchemaErrors)
    ensures
        (a@ + b@) + c@ == a@ + (b@ + c@),
{
    assert((a@ + b@) + c@ =~= a@ + (b@ + c@));
}

/// The outcome of a validation: the validated value, or every error found.
#[derive(Debug, Clone, PartialEq)]
pub enum Validation<T, E> {
    Success(T),
    Failure(E),
}

impl<T: View, E: View> View for Validation<T, E> {
    type V = Validation<T::V, E::V>;

    open spec fn view(&self) -> Validation<T::V, E::V> {
        match self {
            Validation::Success(v) => Validation::Success(v@),
            Validation::Failure(e) => Validation::Failure(e@),
        }
    }
}

impl<T, E> Validation<T, E> {
    pub fn is_success(&self) -> (r: bool)
        ensures
            r == (self is Success),
    {
        match self {
            Validation::Success(_) => true,
            Validation::Failure(_) => false,
        }
    }

    /// `Ok` with the value of a success, `Err` with the errors of a failure.
    pub fn into_result(self) -> (r: Result<T, E>)
        ensures
            self is Success ==> r == Ok::<T, E>(self->Success_0),
            self is Failure ==> r == Err::<T, E>(self->Failure_0),
    {
        match self {
            Validation::Success(v) => Ok(v),
            Validation::Failure(e) => Err(e),
        }
    }

    pub fn is_failure(&self) -> (r: bool)
        ensures
            r == (self is Failure),
    {
        match self {
            Validation::Success(_) => false,
            Validation::Failure(_) => true,
        }
    }
}

/// The result of a validation whose errors are schema errors.
pub type ValidationResult<T> = Validation<T, SchemaErrors>;

impl<T, E> Validation<T, E> {
    /// Applies `f` to the value of a success; a failure passes through.
    pub fn map<U, F: FnOnce(T) -> U>(self, f: F) -> (r: Validation<U, E>)
        requires
            self is Success ==> call_requires(f, (self->Success_0,)),
        ensures
            self is Failure ==> r == Validation::<U, E>::Failure(self->Failure_0),
            self is Success ==> r is Success && call_ensures(f, (self->Success_0,), r->Success_0),
    {
        match self {
            Validation::Success(v) => Validation::Success(f(v)),
            Validation::Failure(e) => Validation::Failure(e),
        }
    }

    /// Fail-fast chaining: `f` runs only on the value of a success.
    pub fn and_then<U, F: FnOnce(T) -> Validation<U, E>>(self, f: F) -> (r: Validation<U, E>)
        requires
            self is Success ==> call_requires(f, (self->Success_0,)),
        ensures
            self is Failure ==> r == Validation::<U, E>::Failure(self->Failure_0),
            self is Success ==> call_ensures(f, (self->Success_0,), r),
    {
        match self {
            Validation::Success(v) => f(v),
            Validation::Failure(e) => Validation::Failure(e),
        }
    }
}

impl<T> Validation<T, SchemaErrors> {
    /// Accumulating conjunction: the second value when both succeed, otherwise
    /// the errors of both sides, first side first.
    pub fn and<U>(self, other: Validation<U, SchemaErrors>) -> (r: Validation<U, SchemaErrors>)
        ensures
            (self is Success && other is Success) ==> r == other,
            (self is Failure && other is Failure) ==> r is Failure && r->Failure_0@ == self->Failure_0@ + other->Failure_0@,
            (self is Failure && other is Success) ==> r is Failure && r->Failure_0@ == self->Failure_0@,
            (self is Success && other is Failure) ==> r == other,
    {
        match self {
            Validation::Success(_) => other,
            Validation::Failure(e1) => match other {
                Validation::Success(_) => Validation::Failure(e1),
                Validation::Failure(e2) => Validation::Failure(e1.combine(e2)),
            },
        }
    }
}

} // verus!
