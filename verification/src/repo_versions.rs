//! The latest version tag of a repository.
use vstd::prelude::*;
use crate::regex_text::{regex_is_match, regex_is_match_outcome};

verus! {

/// A version tag: `vX.Y.Z` or `{package_name}-vX.Y.Z`, as a word of its own.
/// - `\b` asserts a word boundary, so that the match is not part of a longer word;
/// - `([a-zA-Z0-9_-]+-)?` optionally matches a package name followed by a hyphen;
/// - `(v\d+\.\d+\.\d+)` matches the version.
pub const VERSION_TAG_PATTERN: &'static str = r"\b([a-zA-Z0-9_-]+-)?(v\d+\.\d+\.\d+)\b";

/// `tag` is a version tag.
pub open spec fn is_version_tag(tag: Seq<char>) -> bool {
    regex_is_match_outcome(VERSION_TAG_PATTERN@, tag) == Ok::<bool, Seq<char>>(true)
}

/// The first version tag of `tags`, if any.
pub open spec fn first_version_tag(tags: Seq<Seq<char>>) -> Option<Seq<char>>
    decreases tags.len(),
{
    if tags.len() == 0 {
        None
    } else if is_version_tag(tags[0]) {
        Some(tags[0])
    } else {
        first_version_tag(tags.drop_first())
    }
}

/// The latest version tag among `tags`, sorted from the latest version down: the first one of
/// the form `vX.Y.Z` or `{package_name}-vX.Y.Z`.
pub fn latest_version_tag(tags: &Vec<String>) -> (r: Option<String>)
    ensures
        match r {
            Some(t) => first_version_tag(tags.deep_view()) == Some(t@),
            None => first_version_tag(tags.deep_view()) is None,
        },
{
    let ghost all = tags.deep_view();
    let mut k: usize = 0;
    assert(all.skip(0) == all);
    while k < tags.len()
        invariant
            k <= tags@.len(),
            all == tags.deep_view(),
            first_version_tag(all) == first_version_tag(all.skip(k as int)),
        decreases tags.len() - k,
    {
        let ghost rest = all.skip(k as int);
        assert(rest[0] == tags@[k as int]@);
        assert(rest.drop_first() == all.skip(k + 1));
        match regex_is_match(VERSION_TAG_PATTERN, tags[k].as_str()) {
            Ok(true) => {
                return Some(tags[k].clone());
            },
            _ => {},
        }
        k += 1;
    }
    None
}

} // verus!
