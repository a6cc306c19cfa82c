//! Difference between a local package and its last released version.
use vstd::prelude::*;
use crate::regex_text::{regex_is_match, regex_is_match_outcome};
use crate::text::str_equal;

use crate::semver_check::SemverCheck;

verus! {

/// A commit: its id and its message.
#[derive(Debug, Clone)]
pub struct Commit {
    pub id: String,
    pub message: String,
}

/// Plain view of a commit: id and message.
pub type CommitView = (Seq<char>, Seq<char>);

impl View for Commit {
    type V = CommitView;

    open spec fn view(&self) -> CommitView {
        (self.id@, self.message@)
    }
}

/// Plain views of a list of commits.
pub open spec fn commits_view(s: Seq<Commit>) -> Seq<CommitView> {
    s.map_values(|c: Commit| c@)
}

impl Commit {
    pub fn new(id: String, message: String) -> (c: Commit)
        ensures
            c@ == (id@, message@),
    {
        Commit { id, message }
    }
}

/// `acc` followed by the commits of `added` it does not hold yet, each once, in order.
pub open spec fn append_new(acc: Seq<CommitView>, added: Seq<CommitView>) -> Seq<CommitView>
    decreases added.len(),
{
    if added.len() == 0 {
        acc
    } else {
        let a = append_new(acc, added.drop_last());
        if a.contains(added.last()) {
            a
        } else {
            a.push(added.last())
        }
    }
}

/// Whether `pattern` matches one of `messages`, scanned in order: the first error of the
/// pattern stops the scan, as does the first match.
pub open spec fn any_match(pattern: Seq<char>, messages: Seq<Seq<char>>) -> Result<bool, Seq<char>>
    decreases messages.len(),
{
    if messages.len() == 0 {
        Ok(false)
    } else {
        match regex_is_match_outcome(pattern, messages[0]) {
            Err(e) => Err(e),
            Ok(true) => Ok(true),
            Ok(false) => any_match(pattern, messages.drop_first()),
        }
    }
}

/// Difference between local and registry package (i.e. the last released version)
#[derive(Debug)]
pub struct Diff {
    /// List of commits from last released version to last local changes.
    pub commits: Vec<Commit>,
    /// Whether the package name exists in the registry or not.
    pub registry_package_exists: bool,
    /// Whether the current local version is published to the registry.
    /// If the current version is still unpublished, the package will not be processed.
    pub is_version_published: bool,
    /// The outcome of the semver check of the package.
    pub semver_check: SemverCheck,
}

/// Whether two commits are equal.
fn same_commit(a: &Commit, b: &Commit) -> (r: bool)
    ensures
        r == (a@ == b@),
{
    str_equal(a.id.as_str(), b.id.as_str()) && str_equal(a.message.as_str(), b.message.as_str())
}

impl Diff {
    pub fn new(registry_package_exists: bool) -> (d: Self)
        ensures
            d.commits@.len() == 0,
            d.registry_package_exists == registry_package_exists,
            d.is_version_published,
            d.semver_check == SemverCheck::Skipped,
    {
        Self { commits: Vec::new(), registry_package_exists, is_version_published: true, semver_check: SemverCheck::Skipped }
    }

    /// Records the outcome of the semver check.
    pub fn set_semver_check(&mut self, semver_check: SemverCheck)
        ensures
            final(self).semver_check == semver_check,
            final(self).commits@ == old(self).commits@,
            final(self).registry_package_exists == old(self).registry_package_exists,
            final(self).is_version_published == old(self).is_version_published,
    {
        self.semver_check = semver_check;
    }

    /// The version is updated when the package is in the registry and has new commits.
    pub fn should_update_version(&self) -> (r: bool)
        ensures
            r == (self.registry_package_exists && self.commits@.len() > 0),
    {
        self.registry_package_exists && self.commits.len() > 0
    }

    pub fn set_version_unpublished(&mut self)
        ensures
            !final(self).is_version_published,
            final(self).registry_package_exists == old(self).registry_package_exists,
            final(self).commits@ == old(self).commits@,
            final(self).semver_check == old(self).semver_check,
    {
        self.is_version_published = false;
    }

    /// Whether the commits of the diff include `c`.
    fn has_commit(&self, c: &Commit) -> (r: bool)
        ensures
            r == commits_view(self.commits@).contains(c@),
    {
        let ghost v = commits_view(self.commits@);
        let mut k: usize = 0;
        while k < self.commits.len()
            invariant
                k <= self.commits@.len(),
                v == commits_view(self.commits@),
                forall|k2: int| 0 <= k2 < k ==> v[k2] != c@,
            decreases self.commits.len() - k,
        {
            if same_commit(&self.commits[k], c) {
                assert(v[k as int] == c@);
                return true;
            }
            k += 1;
        }
        assert(!v.contains(c@)) by {
            if v.contains(c@) {
                let k2 = choose|k2: int| 0 <= k2 < v.len() && v[k2] == c@;
                assert(v[k2] != c@);
            }
        }
        false
    }

    /// Adds the commits that the diff does not hold yet, in order.
    pub fn add_commits(&mut self, commits: &[Commit])
        ensures
            commits_view(final(self).commits@) == append_new(commits_view(old(self).commits@), commits_view(commits@)),
            final(self).registry_package_exists == old(self).registry_package_exists,
            final(self).is_version_published == old(self).is_version_published,
            final(self).semver_check == old(self).semver_check,
    {
        let ghost start = commits_view(self.commits@);
        let ghost added = commits_view(commits@);
        let mut i: usize = 0;
        while i < commits.len()
            invariant
                i <= commits@.len(),
                start == commits_view(old(self).commits@),
                added == commits_view(commits@),
                commits_view(self.commits@) == append_new(start, added.take(i as int)),
                self.registry_package_exists == old(self).registry_package_exists,
                self.is_version_published == old(self).is_version_published,
                self.semver_check == old(self).semver_check,
            decreases commits.len() - i,
        {
            let c = &commits[i];
            assert(added.take(i + 1).drop_last() == added.take(i as int));
            assert(added.take(i + 1).last() == c@);
            if !self.has_commit(c) {
                let copy = Commit { id: c.id.clone(), message: c.message.clone() };
                self.commits.push(copy);
                assert(commits_view(self.commits@) == commits_view(self.commits@).drop_last().push(c@));
                assert(commits_view(self.commits@).drop_last() == append_new(start, added.take(i as int)));
            }
            i += 1;
        }
        assert(added.take(commits@.len() as int) == added);
    }

    /// Whether some commit message matches `pattern`; the error of an invalid pattern, met
    /// while scanning the commits in order.
    pub fn any_commit_matches(&self, pattern: &str) -> (r: Result<bool, String>)
        ensures
            crate::regex_text::is_match_view(r) == any_match(
                pattern@,
                self.commits@.map_values(|c: Commit| c.message@),
            ),
    {
        let ghost msgs = self.commits@.map_values(|c: Commit| c.message@);
        assert(msgs.skip(0) == msgs);
        let mut k: usize = 0;
        while k < self.commits.len()
            invariant
                k <= self.commits@.len(),
                msgs == self.commits@.map_values(|c: Commit| c.message@),
                any_match(pattern@, msgs) == any_match(pattern@, msgs.skip(k as int)),
            decreases self.commits.len() - k,
        {
            let ghost rest = msgs.skip(k as int);
            assert(rest[0] == self.commits@[k as int].message@);
            assert(rest.drop_first() == msgs.skip(k + 1));
            match regex_is_match(pattern, self.commits[k].message.as_str()) {
                Err(e) => {
                    return Err(e);
                },
                Ok(true) => {
                    return Ok(true);
                },
                Ok(false) => {},
            }
            k += 1;
        }
        Ok(false)
    }
}

/// Adding commits keeps the commits held, in front, and adds each new commit.
pub proof fn law_added_commits_are_kept(acc: Seq<CommitView>, added: Seq<CommitView>)
    ensures
        append_new(acc, added).take(acc.len() as int) == acc,
        acc.len() <= append_new(acc, added).len(),
        forall|c: CommitView| #[trigger] added.contains(c) ==> append_new(acc, added).contains(c),
    decreases added.len(),
{
    if added.len() > 0 {
        let a = append_new(acc, added.drop_last());
        law_added_commits_are_kept(acc, added.drop_last());
        if !a.contains(added.last()) {
            assert(a.push(added.last()).take(acc.len() as int) == a.take(acc.len() as int));
        }
        assert forall|c: CommitView| #[trigger] added.contains(c) implies append_new(acc, added).contains(c) by {
            let k = choose|k: int| 0 <= k < added.len() && added[k] == c;
            if k < added.len() - 1 {
                assert(added.drop_last().contains(c)) by {
                    assert(added.drop_last()[k] == c);
                }
                if !a.contains(added.last()) {
                    let j = choose|j: int| 0 <= j < a.len() && a[j] == c;
                    assert(a.push(added.last())[j] == c);
                }
            } else {
                if !a.contains(added.last()) {
                    assert(a.push(added.last())[a.len() as int] == c);
                }
            }
        }
    }
}

/// Adding commits never makes a commit appear twice.
pub proof fn law_added_commits_stay_unique(acc: Seq<CommitView>, added: Seq<CommitView>)
    requires
        acc.no_duplicates(),
    ensures
        append_new(acc, added).no_duplicates(),
    decreases added.len(),
{
    if added.len() > 0 {
        law_added_commits_stay_unique(acc, added.drop_last());
        let a = append_new(acc, added.drop_last());
        if !a.contains(added.last()) {
            let b = a.push(added.last());
            assert forall|i: int, j: int| 0 <= i < b.len() && 0 <= j < b.len() && i != j implies b[i] != b[j] by {
                if i < a.len() && j < a.len() {
                } else if i < a.len() {
                    assert(a[i] != added.last());
                } else {
                    assert(a[j] != added.last());
                }
            }
        }
    }
}

/// Adding the same commits a second time changes nothing.
pub proof fn law_adding_commits_again_changes_nothing(acc: Seq<CommitView>, added: Seq<CommitView>)
    ensures
        append_new(append_new(acc, added), added) == append_new(acc, added),
{
    law_added_commits_are_kept(acc, added);
    lemma_append_held(append_new(acc, added), added);
}

/// Adding commits that are all held already changes nothing.
proof fn lemma_append_held(acc: Seq<CommitView>, added: Seq<CommitView>)
    requires
        forall|c: CommitView| #[trigger] added.contains(c) ==> acc.contains(c),
    ensures
        append_new(acc, added) == acc,
    decreases added.len(),
{
    law_added_commits_are_kept(acc, added);
    if added.len() > 0 {
        assert forall|c: CommitView| #[trigger] added.drop_last().contains(c) implies acc.contains(c) by {
            let k = choose|k: int| 0 <= k < added.drop_last().len() && added.drop_last()[k] == c;
            assert(added[k] == c);
            assert(added.contains(c));
        }
        lemma_append_held(acc, added.drop_last());
        assert(added.contains(added.last()));
    }
}

} // verus!
