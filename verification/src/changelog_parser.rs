//! Reading changelogs: the header and the last released version.
use vstd::prelude::*;
use crate::regex_text::{regex_captures, regex_captures_outcome};
use crate::text::{contains_seq, opt_chars, push_str, str_contains};

verus! {

/// A changelog header that ends with an `Unreleased` section heading.
pub const UNRELEASED_HEADER_PATTERN: &'static str = r"(?s)^(# Changelog|# CHANGELOG|# changelog)(.*)(## Unreleased|## \[Unreleased\]|## unreleased|## \[unreleased\])(.*?)(\n)";

/// A changelog header followed by any second-level heading.
pub const ANY_HEADER_PATTERN: &'static str = r"(?s)^(# Changelog|# CHANGELOG|# changelog)(.*?)(\n## )";

/// Group `i` of a capture, if the capture has it.
pub open spec fn group(g: Seq<Option<Seq<char>>>, i: int) -> Option<Seq<char>> {
    if 0 <= i < g.len() { g[i] } else { None }
}

/// The header that the two header patterns find: the whole match of the first, or else the
/// first two groups of the second.
pub open spec fn header_spec(
    first: Result<Option<Seq<Option<Seq<char>>>>, Seq<char>>,
    second: Result<Option<Seq<Option<Seq<char>>>>, Seq<char>>,
) -> Option<Seq<char>> {
    match first {
        Ok(Some(g)) if group(g, 0) is Some => group(g, 0),
        _ => match second {
            Ok(Some(g)) if group(g, 1) is Some && group(g, 2) is Some => Some(
                group(g, 1)->0 + group(g, 2)->0,
            ),
            _ => None,
        },
    }
}

/// Group `i` of a capture.
fn group_at(g: &Vec<Option<String>>, i: usize) -> (r: Option<String>)
    ensures
        opt_chars(r) == group(crate::regex_text::groups_view(*g), i as int),
{
    if i < g.len() {
        match &g[i] {
            Some(s) => Some(s.clone()),
            None => None,
        }
    } else {
        None
    }
}

/// Parse the header from a changelog.
/// The changelog header is a string at the begin of the changelog that:
/// - Starts with `# Changelog`, `# CHANGELOG`, or `# changelog`
/// - ends with `## Unreleased`, `## [Unreleased]` or `## ..anything..`
///   (in the ..anything.. case, `## ..anything..` is not included in the header)
///
/// A pattern that failed to compile would count as not matching.
pub fn parse_header(changelog: &str) -> (r: Option<String>)
    ensures
        opt_chars(r) == header_spec(
            regex_captures_outcome(UNRELEASED_HEADER_PATTERN@, changelog@),
            regex_captures_outcome(ANY_HEADER_PATTERN@, changelog@),
        ),
{
    let first = regex_captures(UNRELEASED_HEADER_PATTERN, changelog);
    if let Ok(Some(g)) = &first {
        let whole = group_at(g, 0);
        if whole.is_some() {
            return whole;
        }
    }
    let second = regex_captures(ANY_HEADER_PATTERN, changelog);
    if let Ok(Some(g)) = &second {
        let a = group_at(g, 1);
        let b = group_at(g, 2);
        if let (Some(a), Some(b)) = (a, b) {
            let mut s = a;
            push_str(&mut s, b.as_str());
            return Some(s);
        }
    }
    None
}

/// A release note as `parse_changelog` reports it.
#[derive(Debug, Clone)]
pub struct ParsedRelease {
    /// The version, e.g. `0.2.5` or `Unreleased`.
    pub version: String,
    /// The title of the release heading.
    pub title: String,
    /// The notes of the release.
    pub notes: String,
}

/// Plain view of a release note: version, title, notes.
pub type ReleaseNoteView = (Seq<char>, Seq<char>, Seq<char>);

impl View for ParsedRelease {
    type V = ReleaseNoteView;

    open spec fn view(&self) -> ReleaseNoteView {
        (self.version@, self.title@, self.notes@)
    }
}

/// Plain view of the outcome of parsing a changelog.
pub open spec fn releases_result_view(r: Result<Vec<ParsedRelease>, String>) -> Result<Seq<ReleaseNoteView>, Seq<char>> {
    match r {
        Ok(v) => Ok(v@.map_values(|p: ParsedRelease| p@)),
        Err(e) => Err(e@),
    }
}

/// What `parse_changelog::parse` gives for a text: its release notes in the order of the
/// text, or the message of its error.
pub uninterp spec fn changelog_parse_outcome(text: Seq<char>) -> Result<Seq<ReleaseNoteView>, Seq<char>>;

/// Calls `parse_changelog::parse` and lists the release notes of the resulting map in order.
/// Nothing is claimed of the notes beyond their being a function of the text.
#[verifier::external_body]
fn parse_changelog_releases(text: &str) -> (r: Result<Vec<ParsedRelease>, String>)
    ensures
        releases_result_view(r) == changelog_parse_outcome(text@),
{
    match parse_changelog::parse(text) {
        Ok(c) => Ok(c
            .values()
            .map(|r| ParsedRelease { version: r.version.to_string(), title: r.title.to_string(), notes: r.notes.to_string() })
            .collect()),
        Err(e) => Err(e.to_string()),
    }
}

/// What `str::to_lowercase` gives for a text.
pub uninterp spec fn lowercase(s: Seq<char>) -> Seq<char>;

/// Calls `str::to_lowercase`.
#[verifier::external_body]
pub(crate) fn to_lowercase(s: &str) -> (r: String)
    ensures
        r@ == lowercase(s@),
{
    s.to_lowercase()
}

/// A version heading that stands for unreleased changes.
pub open spec fn is_unreleased(version: Seq<char>) -> bool {
    contains_seq(lowercase(version), "unreleased"@)
}

/// Position of the last release: the first note, or the second one when the first is the
/// unreleased section.
pub open spec fn last_release_position(releases: Seq<ReleaseNoteView>) -> Option<int> {
    if releases.len() == 0 {
        None
    } else if is_unreleased(releases[0].0) {
        if releases.len() >= 2 { Some(1) } else { None }
    } else {
        Some(0)
    }
}

/// The last release note among the notes of a changelog.
pub open spec fn last_release_spec(releases: Seq<ReleaseNoteView>) -> Option<ReleaseNoteView> {
    match last_release_position(releases) {
        Some(i) => Some(releases[i]),
        None => None,
    }
}

/// The last release among parsed release notes (see [`last_release_position`]).
pub fn last_release_of(releases: &Vec<ParsedRelease>) -> (r: Option<&ParsedRelease>)
    ensures
        match r {
            Some(p) => last_release_spec(releases@.map_values(|p: ParsedRelease| p@)) == Some(p@),
            None => last_release_spec(releases@.map_values(|p: ParsedRelease| p@)) is None,
        },
{
    let ghost views = releases@.map_values(|p: ParsedRelease| p@);
    let first = release_at(releases, 0);
    match first {
        None => None,
        Some(first) => {
            let lower = to_lowercase(first.version.as_str());
            if str_contains(lower.as_str(), "unreleased") {
                release_at(releases, 1)
            } else {
                Some(first)
            }
        },
    }
}

/// The release note at `index`, if there is one.
fn release_at(releases: &Vec<ParsedRelease>, index: usize) -> (r: Option<&ParsedRelease>)
    ensures
        index < releases@.len() ==> r == Some(&releases@[index as int]),
        index >= releases@.len() ==> r is None,
{
    if index < releases.len() {
        Some(&releases[index])
    } else {
        None
    }
}

/// Why a changelog could not be read.
#[derive(Debug, Clone)]
pub struct ChangelogError {
    /// The message of the changelog parser.
    pub reason: String,
}

impl ChangelogError {
    /// The error message.
    pub fn to_string(&self) -> (s: String)
        ensures
            s@ == "can't parse changelog"@,
    {
        "can't parse changelog".to_owned()
    }
}

/// Parsed release notes of a changelog.
pub struct ChangelogParser {
    releases: Vec<ParsedRelease>,
}

impl ChangelogParser {
    /// The release notes of the parser.
    pub closed spec fn notes(&self) -> Seq<ReleaseNoteView> {
        self.releases@.map_values(|p: ParsedRelease| p@)
    }

    /// Parses a changelog.
    pub fn new(changelog_text: &str) -> (r: Result<ChangelogParser, ChangelogError>)
        ensures
            match changelog_parse_outcome(changelog_text@) {
                Ok(notes) => r matches Ok(p) && p.notes() == notes,
                Err(reason) => r matches Err(e) && e.reason@ == reason,
            },
    {
        match parse_changelog_releases(changelog_text) {
            Ok(releases) => Ok(ChangelogParser { releases }),
            Err(reason) => Err(ChangelogError { reason }),
        }
    }

    /// The last release of the changelog.
    pub fn last_release(&self) -> (r: Option<&ParsedRelease>)
        ensures
            match r {
                Some(p) => last_release_spec(self.notes()) == Some(p@),
                None => last_release_spec(self.notes()) is None,
            },
    {
        last_release_of(&self.releases)
    }
}

/// Plain view of the outcome of reading one text of the last release.
pub open spec fn text_result_view(r: Result<Option<String>, ChangelogError>) -> Result<Option<Seq<char>>, Seq<char>> {
    match r {
        Ok(o) => Ok(opt_chars(o)),
        Err(e) => Err(e.reason@),
    }
}

/// The notes (`.2`) or version (`.0`) of the last release, or the parse error.
pub open spec fn last_release_field(text: Seq<char>, field: int) -> Result<Option<Seq<char>>, Seq<char>> {
    match changelog_parse_outcome(text) {
        Err(reason) => Err(reason),
        Ok(notes) => Ok(match last_release_spec(notes) {
            Some(n) => Some(if field == 0 { n.0 } else if field == 1 { n.1 } else { n.2 }),
            None => None,
        }),
    }
}

/// The notes of the last release of a changelog.
pub fn last_changes_from_str(changelog: &str) -> (r: Result<Option<String>, ChangelogError>)
    ensures
        text_result_view(r) == last_release_field(changelog@, 2),
{
    let parser = ChangelogParser::new(changelog)?;
    match parser.last_release() {
        Some(r) => Ok(Some(r.notes.clone())),
        None => Ok(None),
    }
}

/// The version of the last release of a changelog.
pub fn last_version_from_str(changelog: &str) -> (r: Result<Option<String>, ChangelogError>)
    ensures
        text_result_view(r) == last_release_field(changelog@, 0),
{
    let parser = ChangelogParser::new(changelog)?;
    match parser.last_release() {
        Some(r) => Ok(Some(r.version.clone())),
        None => Ok(None),
    }
}

/// Title and notes of a release.
pub struct ChangelogRelease {
    title: String,
    notes: String,
}

impl View for ChangelogRelease {
    type V = (Seq<char>, Seq<char>);

    closed spec fn view(&self) -> (Seq<char>, Seq<char>) {
        (self.title@, self.notes@)
    }
}

impl ChangelogRelease {
    fn from_release(release: &ParsedRelease) -> (r: ChangelogRelease)
        ensures
            r@ == (release.title@, release.notes@),
    {
        ChangelogRelease { title: release.title.clone(), notes: release.notes.clone() }
    }

    /// The title of the release.
    pub fn title(&self) -> (r: &str)
        ensures
            r@ == self@.0,
    {
        self.title.as_str()
    }

    /// The notes of the release.
    pub fn notes(&self) -> (r: &str)
        ensures
            r@ == self@.1,
    {
        self.notes.as_str()
    }
}

/// The last release (title and notes) of a changelog.
pub fn last_release_from_str(changelog: &str) -> (r: Result<Option<ChangelogRelease>, ChangelogError>)
    ensures
        match changelog_parse_outcome(changelog@) {
            Err(reason) => r matches Err(e) && e.reason@ == reason,
            Ok(notes) => r matches Ok(o) && match last_release_spec(notes) {
                Some(n) => o matches Some(c) && c@ == (n.1, n.2),
                None => o is None,
            },
        },
{
    let parser = ChangelogParser::new(changelog)?;
    match parser.last_release() {
        Some(r) => Ok(Some(ChangelogRelease::from_release(r))),
        None => Ok(None),
    }
}

} // verus!
