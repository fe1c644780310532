//! The artwork filename pattern: a regular expression of the `regex` crate.

use regex::Regex;
use vstd::prelude::*;

verus! {

/// `regex::Regex`, a compiled regular expression. Nothing is known of what
/// is inside it.
#[verifier::external_type_specification]
#[verifier::external_body]
pub struct ExRegex(regex::Regex);

/// `regex::Error`, the reason `regex::Regex::new` gives for not compiling an
/// expression. Nothing is known of what is inside it.
#[verifier::external_type_specification]
#[verifier::external_body]
pub struct ExRegexError(regex::Error);

/// Whether the compiled expression `pattern` has a match anywhere in `text`:
/// the answer of `regex::Regex::is_match`.
pub uninterp spec fn matches(pattern: Regex, text: Seq<char>) -> bool;

/// Whether `regex::Regex::new` compiles the expression written as `source`.
/// It refuses text that is not an expression and expressions whose compiled
/// form exceeds the size limit that the crate is built with.
pub uninterp spec fn compiles(source: Seq<char>) -> bool;

/// Whether the expression that `regex::Regex::new` compiles from `source`
/// has a match anywhere in `text`.
pub uninterp spec fn source_matches(source: Seq<char>, text: Seq<char>) -> bool;

/// Whether `pattern` matches as the expression compiled from `source` does.
pub open spec fn matches_as(pattern: Regex, source: Seq<char>) -> bool {
    forall|text: Seq<char>| #[trigger] matches(pattern, text) == source_matches(source, text)
}

/// Whether two compiled expressions match the same texts.
pub open spec fn match_alike(first: Regex, second: Regex) -> bool {
    forall|text: Seq<char>| #[trigger] matches(first, text) == matches(second, text)
}

/// `regex::Regex::new` compiles an expression from its source text, with the
/// crate's default settings. Whether it succeeds, and what the compiled
/// expression matches, depend on the source text alone: no clock, environment
/// or earlier call enters. Both are named, `compiles` and `source_matches`.
pub assume_specification[ Regex::new ](re: &str) -> (compiled: Result<Regex, regex::Error>)
    ensures
        compiled is Ok <==> compiles(re@),
        compiled is Ok ==> forall|text: Seq<char>|
            #[trigger] matches(compiled->Ok_0, text) == source_matches(re@, text),
;

/// `regex::Regex::is_match` searches `haystack` for a match of the compiled
/// expression. The answer depends on the expression and the text alone and is
/// named `matches`; the call does not panic.
pub assume_specification[ Regex::is_match ](pattern: &Regex, haystack: &str) -> (found: bool)
    ensures
        found == matches(*pattern, haystack@),
;

/// Whether an entry named `name` is artwork under `pattern`. An entry whose
/// name is not valid Unicode never is.
pub open spec fn is_artwork_name(pattern: Regex, name: Option<String>) -> bool {
    match name {
        Some(n) => matches(pattern, n@),
        None => false,
    }
}

/// Patterns that match as one source does match alike.
pub proof fn patterns_of_one_source_match_alike(first: Regex, second: Regex, source: Seq<char>)
    requires
        matches_as(first, source),
        matches_as(second, source),
    ensures
        match_alike(first, second),
{
}

/// Whether the artwork pattern compiles. A caller can ask this before it
/// reads anything: a pass under a pattern that does not compile fails with
/// `InvalidPattern` whatever it is given to walk.
pub fn pattern_compiles(album_art_pattern: &str) -> (ok: bool)
    ensures
        ok == compiles(album_art_pattern@),
{
    Regex::new(album_art_pattern).is_ok()
}

/// Tests an entry's name against the artwork pattern.
pub(crate) fn name_is_artwork(pattern: &Regex, name: &Option<String>) -> (found: bool)
    ensures
        found == is_artwork_name(*pattern, *name),
{
    match name {
        Some(n) => pattern.is_match(n.as_str()),
        None => false,
    }
}

} // verus!
