//! Regular expressions, as the `regex` crate understands them.
//!
//! The engine is not modelled here. What it answers is given two names,
//! `pattern_compiles` and `pattern_matches`, and the functions of this module
//! say how their results relate to those names.

use vstd::prelude::*;

verus! {

/// The error type of the `regex` crate. Nothing is known of its inside.
#[verifier::external_type_specification]
#[verifier::external_body]
pub struct ExRegexError(::regex::Error);

/// Whether the engine compiles `pattern`: whether `regex::Regex::new`
/// returns a regular expression for it. It does not for text that is no
/// regular expression, nor for one whose compiled form is larger than the
/// engine's default size limit. That size is counted in bytes of the
/// machine's own data layout, so a pattern at the very margin may compile
/// for one pointer width and not for another; within one build of the
/// library the answer depends on the pattern alone.
pub uninterp spec fn pattern_compiles(pattern: Seq<char>) -> bool;

/// Whether the regular expression compiled from `pattern` matches some part
/// of `text`: what `regex::Regex::is_match` answers. It has a meaning only
/// where `pattern` compiles.
pub uninterp spec fn pattern_matches(pattern: Seq<char>, text: Seq<char>) -> bool;

/// `regex::Regex::new` on `pattern`, then `Regex::is_match` on `text`.
/// `new` returns an error for a pattern that it does not compile, whatever
/// the text; `is_match` returns true if and only if there is a match
/// anywhere in the text. Both depend on their arguments alone, and neither
/// panics. The contract claims that the call fails exactly where the pattern
/// does not compile, and that it else hands back the answer of `is_match`.
#[verifier::external_body]
fn search(pattern: &str, text: &str) -> (found: Result<bool, ::regex::Error>)
    ensures
        found is Ok <==> pattern_compiles(pattern@),
        found matches Ok(answer) ==> answer == pattern_matches(pattern@, text@),
{
    match ::regex::Regex::new(pattern) {
        Ok(compiled) => Ok(compiled.is_match(text)),
        Err(error) => Err(error),
    }
}

/// The message of an error of the `regex` crate, as its `Display` writes it.
/// Nothing is claimed of the text.
#[verifier::external_body]
fn describe(error: &::regex::Error) -> (message: String) {
    error.to_string()
}

/// A pattern that the engine did not compile.
#[derive(Debug, Clone, PartialEq, Eq)]
pub struct RegexError {
    /// What the engine said of the pattern.
    pub message: String,
}

/// Identifiers: a letter or an underscore, then letters, digits and
/// underscores.
pub const ALPHANUMERIC_CHARACTERS_PATTERN: &'static str = "^[A-Za-z_][A-Za-z0-9_]*$";

/// Searches `text` for the regular expression `pattern`. The search fails,
/// with the engine's message, exactly where the engine does not compile the
/// pattern, whatever the text; else it says whether some part of the text
/// matches.
pub fn regex_match(pattern: &str, text: &str) -> (result: Result<bool, RegexError>)
    ensures
        result is Ok <==> pattern_compiles(pattern@),
        result matches Ok(answer) ==> answer == pattern_matches(pattern@, text@),
{
    match search(pattern, text) {
        Ok(answer) => Ok(answer),
        Err(error) => Err(RegexError { message: describe(&error) }),
    }
}

/// Whether a search found a match. A search that failed found none.
pub fn found(result: &Result<bool, RegexError>) -> (r: bool)
    ensures
        r == (*result matches Ok(answer) && answer),
{
    match result {
        Ok(answer) => *answer,
        Err(_) => false,
    }
}

/// Whether `text` matches `ALPHANUMERIC_CHARACTERS_PATTERN`.
pub fn is_alphanumeric_characters(text: &str) -> (r: bool)
    ensures
        r == (pattern_compiles(ALPHANUMERIC_CHARACTERS_PATTERN@) && pattern_matches(
            ALPHANUMERIC_CHARACTERS_PATTERN@,
            text@,
        )),
{
    let result = regex_match(ALPHANUMERIC_CHARACTERS_PATTERN, text);
    found(&result)
}

} // verus!
