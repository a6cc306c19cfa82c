//! The `Unreleased` heading of a changelog header.
use vstd::prelude::*;
use crate::regex_text::{regex_replace, regex_replace_outcome};
use crate::text::push_str;

verus! {

/// An `[Unreleased]` heading, with its link if it has one.
pub const UNRELEASED_HEADING_PATTERN: &'static str = r"#\s*\[Unreleased\](\(.*\))?";

/// The replacement of the `[Unreleased]` heading: a link to `unreleased_link`.
pub open spec fn unreleased_replacement(unreleased_link: Seq<char>) -> Seq<char> {
    "# [Unreleased]("@ + unreleased_link + ")"@
}

/// Links the first `[Unreleased]` heading of `header` to `unreleased_link`, replacing its
/// former link. A heading without brackets is left as it is.
/// A pattern that failed to compile would leave the header as it is.
pub fn replace_unreleased(header: &str, unreleased_link: &str) -> (r: String)
    ensures
        r@ == match regex_replace_outcome(UNRELEASED_HEADING_PATTERN@, header@, unreleased_replacement(unreleased_link@)) {
            Ok(s) => s,
            Err(_) => header@,
        },
{
    let mut replacement = String::new();
    push_str(&mut replacement, "# [Unreleased](");
    push_str(&mut replacement, unreleased_link);
    push_str(&mut replacement, ")");
    match regex_replace(UNRELEASED_HEADING_PATTERN, header, replacement.as_str()) {
        Ok(s) => s,
        Err(_) => header.to_owned(),
    }
}

} // verus!
