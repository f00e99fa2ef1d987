//! Compiled patterns, through the `regex` crate.
use vstd::prelude::*;

verus! {

#[verifier::external_type_specification]
#[verifier::external_body]
pub struct ExRegex(regex::Regex);

#[verifier::external_type_specification]
#[verifier::external_body]
pub struct ExRegexError(regex::Error);

/// Whether `regex::Regex::new` accepts the pattern.
pub uninterp spec fn compiles(pattern: Seq<char>) -> bool;

/// Whether the compiled pattern matches somewhere in `text`.
pub uninterp spec fn finds(pattern: Seq<char>, text: Seq<char>) -> bool;

/// A compiled pattern, together with the pattern it was compiled from.
pub(crate) struct Matcher {
    re: regex::Regex,
    source: Ghost<Seq<char>>,
}

impl Matcher {
    /// The pattern this matcher was compiled from.
    pub closed spec fn pattern(&self) -> Seq<char> {
        self.source@
    }
}

/// Relies on `regex::Regex::new`: it fails on a pattern that is not valid
/// syntax or compiles too large, which depends on the pattern alone.
#[verifier::external_body]
pub(crate) fn compile(pattern: &str) -> (r: Result<Matcher, regex::Error>)
    ensures
        r is Ok <==> compiles(pattern@),
        r is Ok ==> r->Ok_0.pattern() == pattern@,
{
    match regex::Regex::new(pattern) {
        Ok(re) => Ok(Matcher { re, source: Ghost(pattern@) }),
        Err(e) => Err(e),
    }
}

/// Relies on `regex::Regex::is_match`: true if and only if the regex matches
/// somewhere in `text`, which depends on the pattern and `text` alone.
#[verifier::external_body]
pub(crate) fn found_in(m: &Matcher, text: &str) -> (r: bool)
    ensures
        r == finds(m.pattern(), text@),
{
    m.re.is_match(text)
}

} // verus!
