//! Ignore patterns: regular expressions over names.

use regex::{Regex, RegexBuilder};
use vstd::prelude::*;

verus! {

#[verifier::external_type_specification]
#[verifier::external_body]
pub struct ExRegex(Regex);

/// Whether `regex` compiles the pattern in Unicode mode, that is, whether
/// `RegexBuilder::new(pattern).unicode(true).build()` returns `Ok`.
pub uninterp spec fn unicode_regex_compiles(pattern: Seq<char>) -> bool;

/// Whether the pattern, compiled by `regex` in Unicode mode, matches
/// somewhere in the haystack, that is, what `Regex::is_match` returns.
pub uninterp spec fn unicode_regex_matches(pattern: Seq<char>, haystack: Seq<char>) -> bool;

/// A pattern that compiles, together with what it was compiled to.
#[derive(Debug)]
pub struct IgnorePattern {
    pattern: String,
    regex: Regex,
}

impl View for IgnorePattern {
    type V = Seq<char>;

    closed spec fn view(&self) -> Seq<char> {
        self.pattern@
    }
}

/// `regex::RegexBuilder::build`, on a builder for `pattern` with Unicode
/// mode on. The build fails where the pattern is no regular expression or
/// grows over the size limit. What is built is kept beside the pattern it
/// was built from.
#[verifier::external_body]
fn compile(pattern: &str) -> (compiled: Option<IgnorePattern>)
    ensures
        compiled is Some == unicode_regex_compiles(pattern@),
        compiled matches Some(compiled) ==> compiled@ == pattern@,
{
    match RegexBuilder::new(pattern).unicode(true).build() {
        Ok(regex) => Some(IgnorePattern { pattern: pattern.to_owned(), regex }),
        Err(_) => None,
    }
}

/// `regex::Regex::is_match`, on what `compile` built from the pattern.
#[verifier::external_body]
fn is_match(pattern: &IgnorePattern, haystack: &str) -> (matched: bool)
    ensures
        matched == unicode_regex_matches(pattern@, haystack@),
{
    pattern.regex.is_match(haystack)
}

/// Whether a name is ignored under `pattern`. Without a pattern nothing
/// is.
pub open spec fn ignores(pattern: Option<Seq<char>>, name: Seq<char>) -> bool {
    match pattern {
        Some(pattern) => unicode_regex_matches(pattern, name),
        None => false,
    }
}

/// What the patterns hold, where there are patterns.
pub open spec fn pattern_view(pattern: Option<IgnorePattern>) -> Option<Seq<char>> {
    match pattern {
        Some(pattern) => Some(pattern@),
        None => None,
    }
}

impl IgnorePattern {
    /// Compiles `pattern` so that it accepts Unicode characters. `None`
    /// where it does not compile.
    pub fn new(pattern: &str) -> (compiled: Option<IgnorePattern>)
        ensures
            compiled is Some == unicode_regex_compiles(pattern@),
            compiled matches Some(compiled) ==> compiled@ == pattern@,
    {
        compile(pattern)
    }

    /// The pattern as it was written.
    pub fn as_str(&self) -> (pattern: &str)
        ensures
            pattern@ == self@,
    {
        self.pattern.as_str()
    }

    /// Whether the pattern matches somewhere in `haystack`.
    pub fn is_match(&self, haystack: &str) -> (matched: bool)
        ensures
            matched == unicode_regex_matches(self@, haystack@),
    {
        is_match(self, haystack)
    }
}

/// Whether `haystack` is ignored under `pattern`.
pub fn is_none_or_match(pattern: &Option<IgnorePattern>, haystack: &str) -> (ignored: bool)
    ensures
        ignored == ignores(pattern_view(*pattern), haystack@),
{
    match pattern {
        Some(pattern) => pattern.is_match(haystack),
        None => false,
    }
}

} // verus!
