//! Regular expressions, as the `regex` crate compiles and runs them.

use vstd::prelude::*;

verus! {

/// A compiled regular expression of the `regex` crate.
#[verifier::external_type_specification]
#[verifier::external_body]
pub struct ExRegex(regex::Regex);

/// An expression compiled from its pattern text alone, with no option set.
/// There is no other way to make one than to compile a pattern.
pub struct Expression {
    compiled: regex::Regex,
}

/// The pattern text that a compiled expression was made from.
pub uninterp spec fn regex_pattern(re: regex::Regex) -> Seq<char>;

/// Whether `regex::Regex::new` accepts the pattern text.
pub uninterp spec fn pattern_compiles(pattern: Seq<char>) -> bool;

/// Whether the expression that `regex::Regex::new` makes of `pattern`
/// matches anywhere in `haystack`.
pub uninterp spec fn regex_search(pattern: Seq<char>, haystack: Seq<char>) -> bool;

/// `regex::Regex::new`: compiles `pattern`. Whether it is accepted depends on
/// the pattern text alone, and the compiled expression remembers that text.
#[verifier::external_body]
fn compile_pattern(pattern: &str) -> (r: Option<Expression>)
    ensures
        r is Some <==> pattern_compiles(pattern@),
        r matches Some(e) ==> regex_pattern(e.compiled) == pattern@,
{
    regex::Regex::new(pattern).ok().map(|compiled| Expression { compiled })
}

/// `regex::Regex::is_match` on an expression that `regex::Regex::new` made:
/// whether it matches anywhere in `haystack`. With no option set, the answer
/// depends on the pattern text and the haystack alone.
#[verifier::external_body]
fn pattern_matches(e: &Expression, haystack: &str) -> (r: bool)
    ensures
        r == regex_search(regex_pattern(e.compiled), haystack@),
{
    e.compiled.is_match(haystack)
}

impl Expression {
    /// The pattern text that the expression was compiled from.
    pub closed spec fn pattern(&self) -> Seq<char> {
        regex_pattern(self.compiled)
    }

    /// The expression that `pattern` denotes, where it denotes one.
    pub fn compile(pattern: &str) -> (r: Option<Expression>)
        ensures
            r is Some <==> pattern_compiles(pattern@),
            r matches Some(e) ==> e.pattern() == pattern@,
    {
        compile_pattern(pattern)
    }

    /// Whether the expression matches anywhere in `haystack`.
    pub fn is_match(&self, haystack: &str) -> (r: bool)
        ensures
            r == regex_search(self.pattern(), haystack@),
    {
        pattern_matches(self, haystack)
    }
}

} // verus!
