//! Semantic versions, as the `semver` crate parses them.
use vstd::prelude::*;

verus! {

/// A semantic version `major.minor.patch[-pre][+build]`.
#[derive(Debug, Clone)]
pub struct Version {
    pub major: u64,
    pub minor: u64,
    pub patch: u64,
    /// The pre-release identifier (after `-`), empty for a release.
    pub pre: String,
    /// The build metadata (after `+`), empty when there is none.
    pub build: String,
}

/// Plain view of a version: major, minor, patch, pre-release, build.
pub type VersionView = (u64, u64, u64, Seq<char>, Seq<char>);

impl View for Version {
    type V = VersionView;

    open spec fn view(&self) -> VersionView {
        (self.major, self.minor, self.patch, self.pre@, self.build@)
    }
}

/// Plain view of the outcome of parsing a version.
pub open spec fn version_result_view(r: Result<Version, String>) -> Result<VersionView, Seq<char>> {
    match r {
        Ok(v) => Ok(v@),
        Err(e) => Err(e@),
    }
}

/// What `semver::Version::parse` gives for a text: the parts of the version, or the message of
/// its error.
pub uninterp spec fn semver_parse_outcome(text: Seq<char>) -> Result<VersionView, Seq<char>>;

/// Calls `semver::Version::parse` and takes the parts of the version apart. The result is the
/// named outcome for `text`; the grammar of versions is not restated here.
#[verifier::external_body]
fn parse_semver(text: &str) -> (r: Result<Version, String>)
    ensures
        version_result_view(r) == semver_parse_outcome(text@),
{
    match cargo_metadata::semver::Version::parse(text) {
        Ok(v) => Ok(Version {
            major: v.major,
            minor: v.minor,
            patch: v.patch,
            pre: v.pre.as_str().to_string(),
            build: v.build.as_str().to_string(),
        }),
        Err(e) => Err(e.to_string()),
    }
}

/// What `semver::Version`'s `<` gives for the versions written `a` and `b`, or nothing when one
/// of the texts is not a version.
pub uninterp spec fn semver_less_outcome(a: Seq<char>, b: Seq<char>) -> Option<bool>;

/// Parses both texts with `semver::Version::parse` and compares the versions with `<`, which
/// orders by semver precedence and then by build metadata. Nothing is claimed of the order
/// beyond its being a function of the two texts.
#[verifier::external_body]
pub(crate) fn semver_less(a: &str, b: &str) -> (r: Option<bool>)
    ensures
        r == semver_less_outcome(a@, b@),
{
    match (cargo_metadata::semver::Version::parse(a), cargo_metadata::semver::Version::parse(b)) {
        (Ok(x), Ok(y)) => Some(x < y),
        _ => None,
    }
}

/// A version is a pre-release when it has a pre-release identifier.
pub open spec fn is_prerelease_spec(v: VersionView) -> bool {
    v.3.len() > 0
}

impl Version {
    /// Parses a semantic version.
    pub fn parse(text: &str) -> (r: Result<Version, String>)
        ensures
            version_result_view(r) == semver_parse_outcome(text@),
    {
        parse_semver(text)
    }

    /// Whether this is a pre-release version, such as `1.0.0-rc1`.
    pub fn is_prerelease(&self) -> (r: bool)
        ensures
            r == is_prerelease_spec(self@),
    {
        !self.pre.as_str().is_empty()
    }
}

} // verus!
