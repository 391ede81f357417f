//! Regular expressions, compiled once and matched against candidate strings.

use vstd::prelude::*;

verus! {

#[verifier::external_type_specification]
#[verifier::external_body]
pub struct ExRegex(regex::Regex);

#[verifier::external_type_specification]
#[verifier::external_body]
pub struct ExRegexError(regex::Error);

/// Whether the regex crate accepts `pattern` (its syntax is valid and the
/// compiled form stays within the default size limit).
pub uninterp spec fn regex_compiles(pattern: Seq<char>) -> bool;

/// Whether `pattern` matches somewhere in `text`.
pub uninterp spec fn regex_finds(pattern: Seq<char>, text: Seq<char>) -> bool;

/// Whether `pattern` compiles and matches somewhere in `text`.
pub open spec fn pattern_accepts(pattern: Seq<char>, text: Seq<char>) -> bool {
    regex_compiles(pattern) && regex_finds(pattern, text)
}

/// A pattern that does not compile.
#[derive(Debug, Clone, PartialEq, Eq)]
pub struct PatternError {
    pub pattern: String,
    /// The regex crate's description of what is wrong.
    pub reason: String,
}

/// Relies on `regex::Error`'s `Display`: the text describing the error.
/// Nothing is stated of that text.
#[verifier::external_body]
fn regex_error_text(e: &regex::Error) -> String {
    e.to_string()
}

/// A compiled regular expression together with the pattern it was compiled from.
#[derive(Debug)]
pub struct CompiledPattern {
    regex: regex::Regex,
    source: String,
}

/// Relies on `regex::Regex::new`: it fails exactly on the patterns that do not compile.
#[verifier::external_body]
fn regex_new(pattern: &str) -> (r: Result<regex::Regex, regex::Error>)
    ensures
        r is Ok <==> regex_compiles(pattern@),
{
    regex::Regex::new(pattern)
}

/// Relies on `regex::Regex::is_match`: whether the compiled pattern matches
/// anywhere in `text`. A `CompiledPattern` is only made by `compile`, which
/// pairs the regex with its own source.
#[verifier::external_body]
fn regex_is_match(p: &CompiledPattern, text: &str) -> (r: bool)
    ensures
        r == regex_finds(p.source(), text@),
{
    p.regex.is_match(text)
}

impl CompiledPattern {
    #[verifier::type_invariant]
    spec fn compiles(self) -> bool {
        regex_compiles(self.source@)
    }

    /// The pattern this was compiled from.
    pub closed spec fn source(&self) -> Seq<char> {
        self.source@
    }

    pub fn compile(pattern: &str) -> (r: Result<CompiledPattern, PatternError>)
        ensures
            r is Ok <==> regex_compiles(pattern@),
            r is Ok ==> r->Ok_0.source() == pattern@,
            r is Err ==> r->Err_0.pattern@ == pattern@,
    {
        match regex_new(pattern) {
            Ok(regex) => Ok(CompiledPattern { regex, source: String::from_str(pattern) }),
            Err(e) => Err(PatternError { pattern: String::from_str(pattern), reason: regex_error_text(&e) }),
        }
    }

    /// The pattern text.
    pub fn as_str(&self) -> (r: &str)
        ensures
            r@ == self.source(),
    {
        self.source.as_str()
    }

    /// Whether the pattern matches somewhere in `text`.
    pub fn is_match(&self, text: &str) -> (r: bool)
        ensures
            r == regex_finds(self.source(), text@),
    {
        regex_is_match(self, text)
    }
}

impl Clone for CompiledPattern {
    /// Compiles the same pattern again.
    fn clone(&self) -> (r: CompiledPattern)
        ensures
            r.source() == self.source(),
    {
        proof { use_type_invariant(self); }
        match CompiledPattern::compile(self.source.as_str()) {
            Ok(p) => p,
            Err(_) => vstd::pervasive::unreached(),
        }
    }
}

/// Whether the fixed `pattern` compiles and matches somewhere in `text`.
pub fn accepts(pattern: &str, text: &str) -> (r: bool)
    ensures
        r == pattern_accepts(pattern@, text@),
{
    match CompiledPattern::compile(pattern) {
        Ok(p) => p.is_match(text),
        Err(_) => false,
    }
}

} // verus!
