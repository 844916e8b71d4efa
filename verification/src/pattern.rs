//! Regular-expression patterns that unit fields must match.

use vstd::prelude::*;

verus! {

#[verifier::external_type_specification]
#[verifier::external_body]
pub struct ExRegex(regex::Regex);

/// Whether `regex::Regex::new` accepts a pattern (it is valid and within the
/// default size limit).
pub uninterp spec fn regex_compiles(pattern: Seq<char>) -> bool;

/// The text of the error that `regex::Regex::new` reports for a pattern it
/// refuses.
pub uninterp spec fn regex_error_text(pattern: Seq<char>) -> Seq<char>;

/// Whether the regex compiled from `pattern` matches somewhere in `haystack`
/// (`regex::Regex::is_match`).
pub uninterp spec fn regex_finds_match(pattern: Seq<char>, haystack: Seq<char>) -> bool;

/// A compiled regular expression together with the pattern it came from.
pub struct CompiledPattern {
    source: String,
    regex: regex::Regex,
}

impl CompiledPattern {
    /// The pattern text this was compiled from.
    pub closed spec fn source_text(self) -> Seq<char> {
        self.source@
    }
}

/// Compiles a pattern.
///
/// Calls `regex::Regex::new`. The contract says the call succeeds exactly when
/// the pattern is accepted (a name for that, as a function of the pattern),
/// that the compiled value remembers the pattern, and that a refusal carries
/// the text of the error's `Display` (named as a function of the pattern).
#[verifier::external_body]
pub(crate) fn compile_pattern(pattern: &str) -> (r: Result<CompiledPattern, String>)
    ensures
        r is Ok <==> regex_compiles(pattern@),
        r matches Ok(c) ==> c.source_text() == pattern@,
        r matches Err(e) ==> e@ == regex_error_text(pattern@),
{
    match regex::Regex::new(pattern) {
        Ok(re) => Ok(CompiledPattern { source: pattern.to_string(), regex: re }),
        Err(e) => Err(e.to_string()),
    }
}

/// Whether a compiled pattern matches somewhere in `haystack`.
///
/// Calls `regex::Regex::is_match`; the result is named as a function of the
/// pattern text and the haystack.
#[verifier::external_body]
pub(crate) fn pattern_is_match(c: &CompiledPattern, haystack: &str) -> (b: bool)
    ensures
        b == regex_finds_match(c.source_text(), haystack@),
{
    c.regex.is_match(haystack)
}

} // verus!
