//! The release pull request: its branch, title and body.
use vstd::prelude::*;
use crate::text::{chars_of, push_str, str_equal, string_from_chars};

verus! {

pub const BRANCH_PREFIX: &'static str = "release-plz-";
pub const OLD_BRANCH_PREFIX: &'static str = "release-plz/";

/// A release pull request.
#[derive(Debug)]
pub struct Pr {
    pub base_branch: String,
    pub branch: String,
    pub title: String,
    pub body: String,
    pub draft: bool,
    pub labels: Vec<String>,
}

/// Plain view of package updates: name and next version of each package.
pub open spec fn updates_view(updates: Seq<(String, String)>) -> Seq<(Seq<char>, Seq<char>)> {
    updates.map_values(|u: (String, String)| (u.0@, u.1@))
}

/// All updates are to the version of the first one.
pub open spec fn all_versions_equal(updates: Seq<(Seq<char>, Seq<char>)>) -> bool {
    forall|k: int| 0 <= k < updates.len() ==> #[trigger] updates[k].1 == updates[0].1
}

/// Title of the pull request that releases `updates` (name and version of each package).
pub open spec fn pr_title_spec(updates: Seq<(Seq<char>, Seq<char>)>, multiple_pub_packages: bool) -> Seq<char> {
    if updates.len() == 1 && multiple_pub_packages {
        // One package of a workspace with several public ones: name it.
        "chore("@ + updates[0].0 + "): release v"@ + updates[0].1
    } else if updates.len() > 1 && !all_versions_equal(updates) {
        // Several packages with different versions: no version in the title.
        "chore: release"@
    } else {
        "chore: release v"@ + updates[0].1
    }
}

/// Body of the pull request, with the summary and the changes of the updates.
pub open spec fn pr_body_spec(summary: Seq<char>, changes: Seq<char>) -> Seq<char> {
    "## 🤖 New release"@ + summary + "\n"@
        + ("<details><summary><i><b>Changelog</b></i></summary><p>\n\n"@ + changes + "\n</p></details>\n"@)
        + "\n"@
        + "---\nThis PR was generated with [release-plz](https://github.com/MarcoIeni/release-plz/)."@
}

/// `s` with each `:` replaced by `-` (`:` is not a valid character of a branch name).
pub open spec fn colons_to_dashes(s: Seq<char>) -> Seq<char> {
    s.map_values(|c: char| if c == ':' { '-' } else { c })
}

/// The name of the release branch made at the time `now` (RFC 3339, in seconds, UTC).
pub open spec fn release_branch_spec(now: Seq<char>) -> Seq<char> {
    BRANCH_PREFIX@ + colons_to_dashes(now)
}

/// The current time as `chrono` formats it in RFC 3339, in seconds, with a `Z` for UTC
/// (`2018-01-26T18:30:09Z`). Nothing is claimed of it: it is the time of the call.
#[verifier::external_body]
fn utc_now_rfc3339() -> (r: String) {
    chrono::offset::Utc::now().to_rfc3339_opts(chrono::SecondsFormat::Secs, true)
}

/// The name of the release branch made at the time `now`.
pub fn release_branch_name(now: &str) -> (r: String)
    ensures
        r@ == release_branch_spec(now@),
{
    let cs = chars_of(now);
    let mut out: Vec<char> = Vec::new();
    let mut i: usize = 0;
    while i < cs.len()
        invariant
            i <= cs@.len(),
            cs@ == now@,
            out@ == colons_to_dashes(now@.take(i as int)),
        decreases cs.len() - i,
    {
        out.push(if cs[i] == ':' { '-' } else { cs[i] });
        assert(now@.take(i + 1) == now@.take(i as int).push(now@[i as int]));
        assert(colons_to_dashes(now@.take(i + 1)) == colons_to_dashes(now@.take(i as int)).push(
            if now@[i as int] == ':' { '-' } else { now@[i as int] },
        ));
        i += 1;
    }
    assert(now@.take(now@.len() as int) == now@);
    let mut r = String::new();
    push_str(&mut r, BRANCH_PREFIX);
    let tail = string_from_chars(out.as_slice());
    push_str(&mut r, tail.as_str());
    r
}

/// The name of a new release branch, made from the current time.
fn release_branch() -> (r: String)
    ensures
        exists|now: Seq<char>| r@ == release_branch_spec(now),
{
    let now = utc_now_rfc3339();
    release_branch_name(now.as_str())
}

/// Title of the pull request that releases `updates` (name and next version of each package).
pub fn pr_title(updates: &[(String, String)], project_contains_multiple_pub_packages: bool) -> (r: String)
    requires
        updates@.len() > 0,
    ensures
        r@ == pr_title_spec(updates_view(updates@), project_contains_multiple_pub_packages),
{
    let ghost u = updates_view(updates@);
    let first_version = &updates[0].1;
    let mut r = String::new();
    if updates.len() == 1 && project_contains_multiple_pub_packages {
        push_str(&mut r, "chore(");
        push_str(&mut r, updates[0].0.as_str());
        push_str(&mut r, "): release v");
        push_str(&mut r, first_version.as_str());
        return r;
    }
    let mut all_equal = true;
    let mut k: usize = 0;
    while k < updates.len()
        invariant
            k <= updates@.len(),
            updates@.len() > 0,
            u == updates_view(updates@),
            *first_version == updates@[0].1,
            all_equal == (forall|k2: int| 0 <= k2 < k ==> #[trigger] u[k2].1 == u[0].1),
        decreases updates.len() - k,
    {
        assert(u[k as int].1 == updates@[k as int].1@);
        assert(u[0].1 == first_version@);
        if !str_equal(updates[k].1.as_str(), first_version.as_str()) {
            all_equal = false;
        }
        k += 1;
        assert(all_equal == (forall|k2: int| 0 <= k2 < k ==> #[trigger] u[k2].1 == u[0].1)) by {
            if !all_equal {
                if u[k - 1].1 != u[0].1 {
                } else {
                    let k3 = choose|k3: int| 0 <= k3 < k - 1 && #[trigger] u[k3].1 != u[0].1;
                }
            }
        }
    }
    if updates.len() > 1 && !all_equal {
        push_str(&mut r, "chore: release");
    } else {
        push_str(&mut r, "chore: release v");
        push_str(&mut r, first_version.as_str());
    }
    r
}

/// Body of the pull request, with the summary and the changes of the updates.
pub fn pr_body(summary: &str, changes: &str) -> (r: String)
    ensures
        r@ == pr_body_spec(summary@, changes@),
{
    let mut r = String::new();
    push_str(&mut r, "## 🤖 New release");
    push_str(&mut r, summary);
    push_str(&mut r, "\n");
    push_str(&mut r, "<details><summary><i><b>Changelog</b></i></summary><p>\n\n");
    push_str(&mut r, changes);
    push_str(&mut r, "\n</p></details>\n");
    push_str(&mut r, "\n");
    push_str(&mut r, "---\nThis PR was generated with [release-plz](https://github.com/MarcoIeni/release-plz/).");
    r
}

impl Pr {
    /// The release pull request of `updates` into `default_branch`, on a new release branch.
    pub fn new(
        default_branch: &str,
        updates: &[(String, String)],
        summary: &str,
        changes: &str,
        project_contains_multiple_pub_packages: bool,
    ) -> (pr: Self)
        requires
            updates@.len() > 0,
        ensures
            pr.base_branch@ == default_branch@,
            exists|now: Seq<char>| pr.branch@ == release_branch_spec(now),
            pr.title@ == pr_title_spec(updates_view(updates@), project_contains_multiple_pub_packages),
            pr.body@ == pr_body_spec(summary@, changes@),
            !pr.draft,
            pr.labels@.len() == 0,
    {
        let mut base_branch = String::new();
        push_str(&mut base_branch, default_branch);
        Self {
            branch: release_branch(),
            base_branch,
            title: pr_title(updates, project_contains_multiple_pub_packages),
            body: pr_body(summary, changes),
            draft: false,
            labels: Vec::new(),
        }
    }

    pub fn mark_as_draft(self, draft: bool) -> (pr: Self)
        ensures
            pr.draft == draft,
            pr.base_branch == self.base_branch,
            pr.branch == self.branch,
            pr.title == self.title,
            pr.body == self.body,
            pr.labels@ == self.labels@,
    {
        let mut pr = self;
        pr.draft = draft;
        pr
    }

    pub fn with_labels(self, labels: Vec<String>) -> (pr: Self)
        ensures
            pr.labels@ == labels@,
            pr.draft == self.draft,
            pr.base_branch == self.base_branch,
            pr.branch == self.branch,
            pr.title == self.title,
            pr.body == self.body,
    {
        let mut pr = self;
        pr.labels = labels;
        pr
    }
}

/// The title names a version only when the released versions agree: with several updates and
/// one whose version differs from the first, the title is `chore: release`; when every update
/// has the first one's version, it names that version; a single update in a workspace with
/// several public packages also names its package.
pub proof fn law_pr_title_names_a_version_only_when_all_agree(
    updates: Seq<(Seq<char>, Seq<char>)>,
    multiple_pub_packages: bool,
    k: int,
)
    requires
        updates.len() > 0,
    ensures
        updates.len() > 1 && 0 <= k < updates.len() && updates[k].1 != updates[0].1 ==> pr_title_spec(
            updates,
            multiple_pub_packages,
        ) == "chore: release"@,
        (forall|j: int| 0 <= j < updates.len() ==> #[trigger] updates[j].1 == updates[0].1) && !(updates.len() == 1
            && multiple_pub_packages) ==> pr_title_spec(updates, multiple_pub_packages) == "chore: release v"@
            + updates[0].1,
        updates.len() == 1 && multiple_pub_packages ==> pr_title_spec(updates, multiple_pub_packages) == "chore("@
            + updates[0].0 + "): release v"@ + updates[0].1,
{
    if updates.len() > 1 && 0 <= k < updates.len() && updates[k].1 != updates[0].1 {
        assert(!all_versions_equal(updates));
    }
}

} // verus!
