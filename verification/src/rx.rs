//! The trusted boundary to the pattern-matching engine (`fancy_regex`).
//!
//! The engine is opaque to the verifier: what a pattern compiles to and
//! what it matches are named, not restated, and every contract above this
//! module speaks through those names.

use vstd::prelude::*;

verus! {

#[verifier::external_type_specification]
#[verifier::external_body]
pub struct ExRegex(fancy_regex::Regex);

/// The source text a compiled pattern was built from.
pub uninterp spec fn regex_source(re: fancy_regex::Regex) -> Seq<char>;

/// Whether the engine accepts this pattern text; a function of the text alone.
pub uninterp spec fn regex_ok(pattern: Seq<char>) -> bool;

/// The engine's verdict for this pattern on this word; a function of the
/// two texts alone, with an engine give-up counted as no match.  The name
/// speaks of matchers built the one way this crate builds them, through
/// [`regex_compile`] with the engine's fixed default options; a matcher
/// built elsewhere with other options may give up on other inputs.
pub uninterp spec fn regex_match(pattern: Seq<char>, word: Seq<char>) -> bool;

/// Whether the whole text is one or more word characters.
pub uninterp spec fn word_chars(name: Seq<char>) -> bool;

/// Relies on `fancy_regex::Regex::new`: compiling a pattern text is
/// deterministic, and the compiled value keeps exactly that text.
#[verifier::external_body]
pub(crate) fn regex_compile(pattern: &str) -> (r: Option<fancy_regex::Regex>)
    ensures
        (r matches Some(re) ==> regex_ok(pattern@) && regex_source(re) == pattern@),
        r is None ==> !regex_ok(pattern@),
{
    fancy_regex::Regex::new(pattern).ok()
}

/// Relies on `fancy_regex::Regex::is_match`: on a matcher built with the
/// engine's default options — [`regex_compile`] builds every matcher this
/// crate holds, and builds it so — the verdict depends on the pattern text
/// and the word alone; a give-up of the engine (its fixed default
/// backtrack budget runs out) is counted as no match.
#[verifier::external_body]
pub(crate) fn regex_is_match(re: &fancy_regex::Regex, word: &str) -> (r: bool)
    ensures
        r == regex_match(regex_source(*re), word@),
{
    re.is_match(word).unwrap_or(false)
}

/// Relies on `fancy_regex`: the pattern `^\w+$` holds of a text exactly
/// when the text is one or more word characters, a function of the text
/// alone; on the empty text it never holds.
#[verifier::external_body]
pub(crate) fn is_word_name(name: &str) -> (r: bool)
    ensures
        r == word_chars(name@),
        name@.len() == 0 ==> r == false,
{
    match fancy_regex::Regex::new(r"^\w+$") {
        Ok(re) => re.is_match(name).unwrap_or(false),
        Err(_) => false,
    }
}

} // verus!
