//! URLs, held as the text that the `url` crate serializes them to.
use vstd::prelude::*;

verus! {

/// What `url::Url::parse` gives for a text: the serialization of the parsed URL, or the
/// message of its error.
pub uninterp spec fn url_parse_outcome(text: Seq<char>) -> Result<Seq<char>, Seq<char>>;

/// Plain view of a result of strings.
pub open spec fn string_result_view(r: Result<String, String>) -> Result<Seq<char>, Seq<char>> {
    match r {
        Ok(s) => Ok(s@),
        Err(e) => Err(e@),
    }
}

/// Calls `url::Url::parse` and serializes the URL (`Url` prints as its serialization).
/// Nothing is claimed of the serialization beyond its being a function of the text.
#[verifier::external_body]
pub(crate) fn parse_url(text: &str) -> (r: Result<String, String>)
    ensures
        string_result_view(r) == url_parse_outcome(text@),
{
    match url::Url::parse(text) {
        Ok(u) => Ok(u.to_string()),
        Err(e) => Err(e.to_string()),
    }
}

} // verus!
