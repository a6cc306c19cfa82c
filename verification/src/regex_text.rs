//! Regular expressions, reached through the `regex` crate.
use vstd::prelude::*;

verus! {

/// Plain view of optional capture groups.
pub open spec fn groups_view(g: Vec<Option<String>>) -> Seq<Option<Seq<char>>> {
    g@.map_values(|o: Option<String>| crate::text::opt_chars(o))
}

/// Plain view of the outcome of a capture.
pub open spec fn captures_view(r: Result<Option<Vec<Option<String>>>, String>) -> Result<Option<Seq<Option<Seq<char>>>>, Seq<char>> {
    match r {
        Ok(Some(g)) => Ok(Some(groups_view(g))),
        Ok(None) => Ok(None),
        Err(e) => Err(e@),
    }
}

/// What `regex::Regex::captures` gives for a pattern and a text: the groups of the
/// leftmost-first match (group 0 is the whole match), no match, or the message of the error
/// that `Regex::new` gives for an invalid pattern.
pub uninterp spec fn regex_captures_outcome(pattern: Seq<char>, text: Seq<char>) -> Result<Option<Seq<Option<Seq<char>>>>, Seq<char>>;

/// Compiles `pattern` with `regex::Regex::new` and calls `Regex::captures` on `text`.
/// Nothing is claimed of the groups beyond their being a function of pattern and text.
#[verifier::external_body]
pub(crate) fn regex_captures(pattern: &str, text: &str) -> (r: Result<Option<Vec<Option<String>>>, String>)
    ensures
        captures_view(r) == regex_captures_outcome(pattern@, text@),
{
    match regex::Regex::new(pattern) {
        Ok(re) => Ok(re.captures(text).map(|c| c.iter().map(|g| g.map(|m| m.as_str().to_string())).collect())),
        Err(e) => Err(e.to_string()),
    }
}

/// Plain view of the outcome of a search for all matches.
pub open spec fn all_captures_view(r: Result<Vec<Vec<Option<String>>>, String>) -> Result<Seq<Seq<Option<Seq<char>>>>, Seq<char>> {
    match r {
        Ok(v) => Ok(v@.map_values(|g: Vec<Option<String>>| groups_view(g))),
        Err(e) => Err(e@),
    }
}

/// What `regex::Regex::captures_iter` yields for a pattern and a text: the groups of each
/// successive non-overlapping match, or the message of the error of `Regex::new`.
pub uninterp spec fn regex_captures_iter_outcome(pattern: Seq<char>, text: Seq<char>) -> Result<Seq<Seq<Option<Seq<char>>>>, Seq<char>>;

/// Compiles `pattern` with `regex::Regex::new` and collects `Regex::captures_iter` on `text`.
/// Nothing is claimed of the matches beyond their being a function of pattern and text.
#[verifier::external_body]
pub(crate) fn regex_captures_iter(pattern: &str, text: &str) -> (r: Result<Vec<Vec<Option<String>>>, String>)
    ensures
        all_captures_view(r) == regex_captures_iter_outcome(pattern@, text@),
{
    match regex::Regex::new(pattern) {
        Ok(re) => Ok(re
            .captures_iter(text)
            .map(|c| c.iter().map(|g| g.map(|m| m.as_str().to_string())).collect())
            .collect()),
        Err(e) => Err(e.to_string()),
    }
}

/// What `regex::Regex::is_match` gives for a pattern and a text, or the message of the
/// error of `Regex::new`.
pub uninterp spec fn regex_is_match_outcome(pattern: Seq<char>, text: Seq<char>) -> Result<bool, Seq<char>>;

/// Plain view of the outcome of a match test.
pub open spec fn is_match_view(r: Result<bool, String>) -> Result<bool, Seq<char>> {
    match r {
        Ok(b) => Ok(b),
        Err(e) => Err(e@),
    }
}

/// Compiles `pattern` with `regex::Regex::new` and calls `Regex::is_match` on `text`.
#[verifier::external_body]
pub(crate) fn regex_is_match(pattern: &str, text: &str) -> (r: Result<bool, String>)
    ensures
        is_match_view(r) == regex_is_match_outcome(pattern@, text@),
{
    match regex::Regex::new(pattern) {
        Ok(re) => Ok(re.is_match(text)),
        Err(e) => Err(e.to_string()),
    }
}

/// What `regex::Regex::replace` gives: `text` with its first match replaced by
/// `replacement` (in which `$name` refers to groups), or the error of `Regex::new`.
pub uninterp spec fn regex_replace_outcome(pattern: Seq<char>, text: Seq<char>, replacement: Seq<char>) -> Result<Seq<char>, Seq<char>>;

/// Compiles `pattern` with `regex::Regex::new` and calls `Regex::replace`.
#[verifier::external_body]
pub(crate) fn regex_replace(pattern: &str, text: &str, replacement: &str) -> (r: Result<String, String>)
    ensures
        crate::url_text::string_result_view(r) == regex_replace_outcome(pattern@, text@, replacement@),
{
    match regex::Regex::new(pattern) {
        Ok(re) => Ok(re.replace(text, replacement).into_owned()),
        Err(e) => Err(e.to_string()),
    }
}

/// What `regex::Regex::replace_all` gives: `text` with every match replaced by
/// `replacement`, or the error of `Regex::new`.
pub uninterp spec fn regex_replace_all_outcome(pattern: Seq<char>, text: Seq<char>, replacement: Seq<char>) -> Result<Seq<char>, Seq<char>>;

/// Compiles `pattern` with `regex::Regex::new` and calls `Regex::replace_all`.
#[verifier::external_body]
pub(crate) fn regex_replace_all(pattern: &str, text: &str, replacement: &str) -> (r: Result<String, String>)
    ensures
        crate::url_text::string_result_view(r) == regex_replace_all_outcome(pattern@, text@, replacement@),
{
    match regex::Regex::new(pattern) {
        Ok(re) => Ok(re.replace_all(text, replacement).into_owned()),
        Err(e) => Err(e.to_string()),
    }
}

} // verus!
