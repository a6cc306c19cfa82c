//! The changelog of a package: its header and file name, the contributors and the order of the
//! commits of a new entry.
use vstd::prelude::*;
use crate::changelog_parser::{lowercase, to_lowercase};
use crate::project::take_first;
use crate::text::{opt_chars, str_equal};

verus! {

pub const CHANGELOG_HEADER: &'static str = r#"# Changelog

All notable changes to this project will be documented in this file.

The format is based on [Keep a Changelog](https://keepachangelog.com/en/1.0.0/),
and this project adheres to [Semantic Versioning](https://semver.org/spec/v2.0.0.html).

## [Unreleased]
"#;

pub const CHANGELOG_FILENAME: &'static str = "CHANGELOG.md";
pub const RELEASE_LINK: &'static str = "release_link";
pub const REMOTE: &'static str = "remote";

/// A contributor of a commit, as the git host knows them.
#[derive(Debug, Clone)]
pub struct RemoteContributor {
    pub username: Option<String>,
    pub pr_title: Option<String>,
    pub pr_number: Option<i64>,
    pub pr_labels: Vec<String>,
    pub is_first_time: bool,
}

/// The repository of a changelog and its contributors.
#[derive(Debug)]
pub struct Remote {
    /// Owner of the repo. E.g. `MarcoIeni`.
    pub owner: String,
    /// Name of the repo. E.g. `release-plz`.
    pub repo: String,
    /// HTTP URL to the repository.
    /// E.g. `https://github.com/release-plz/release-plz`.
    pub link: String,
    /// List of contributors.
    pub contributors: Vec<RemoteContributor>,
}

/// The usernames of contributors.
pub open spec fn usernames(cs: Seq<RemoteContributor>) -> Seq<Option<Seq<char>>> {
    cs.map_values(|c: RemoteContributor| opt_chars(c.username))
}

/// The contributors of the commits, in order, the first one of each username only (an unknown
/// username counts as one username).
pub open spec fn unique_contributors(remotes: Seq<Option<RemoteContributor>>) -> Seq<RemoteContributor>
    decreases remotes.len(),
{
    if remotes.len() == 0 {
        Seq::empty()
    } else {
        let prev = unique_contributors(remotes.drop_last());
        match remotes.last() {
            Some(c) => if usernames(prev).contains(opt_chars(c.username)) {
                prev
            } else {
                prev.push(c)
            },
            None => prev,
        }
    }
}

/// Whether two optional usernames are equal.
fn same_username(a: &Option<String>, b: &Option<String>) -> (r: bool)
    ensures
        r == (opt_chars(*a) == opt_chars(*b)),
{
    match (a, b) {
        (Some(x), Some(y)) => str_equal(x.as_str(), y.as_str()),
        (None, None) => true,
        _ => false,
    }
}

/// The contributors of the commits, given the contributor of each commit (see
/// [`unique_contributors`]).
pub fn get_contributors(remotes: Vec<Option<RemoteContributor>>) -> (r: Vec<RemoteContributor>)
    ensures
        r@ == unique_contributors(remotes@),
{
    let ghost all = remotes@;
    assert(all.len() == remotes.len());
    let mut rest = remotes;
    let mut r: Vec<RemoteContributor> = Vec::new();
    let mut k: usize = 0;
    while rest.len() > 0
        invariant
            k <= all.len(),
            all.len() <= usize::MAX,
            rest@ == all.skip(k as int),
            r@ == unique_contributors(all.take(k as int)),
        decreases rest@.len(),
    {
        let next = take_first(&mut rest);
        proof {
            assert(all.take(k + 1).drop_last() == all.take(k as int));
            assert(all.take(k + 1).last() == next);
            assert(rest@ == all.skip(k + 1));
        }
        if let Some(c) = next {
            let ghost names = usernames(r@);
            let mut seen = false;
            let mut j: usize = 0;
            while j < r.len()
                invariant
                    j <= r@.len(),
                    names == usernames(r@),
                    seen == (exists|j2: int| 0 <= j2 < j && names[j2] == opt_chars(c.username)),
                decreases r.len() - j,
            {
                if same_username(&r[j].username, &c.username) {
                    assert(names[j as int] == opt_chars(c.username));
                    seen = true;
                }
                j += 1;
            }
            if !seen {
                proof {
                    if names.contains(opt_chars(c.username)) {
                        let j2 = choose|j2: int| 0 <= j2 < names.len() && names[j2] == opt_chars(c.username);
                        assert(names[j2] == opt_chars(c.username));
                    }
                }
                r.push(c);
            }
        }
        k += 1;
    }
    assert(all.take(k as int) == all);
    r
}

/// The order of the commits of a changelog entry.
#[derive(Debug, PartialEq, Eq, Structural)]
pub enum CommitOrder {
    /// Newest first, as the history gives them.
    Newest,
    /// Oldest first: the commits are reversed.
    Oldest,
    /// An unknown setting: the commits are left newest first.
    Invalid,
}

/// The order that the `sort_commits` setting asks for, whatever its case: `newest` (also
/// when unset) or `oldest`; any other value is invalid.
pub open spec fn commit_order_spec(sort_commits: Option<Seq<char>>) -> CommitOrder {
    match sort_commits {
        None => CommitOrder::Newest,
        Some(s) => if lowercase(s) == "oldest"@ {
            CommitOrder::Oldest
        } else if lowercase(s) == "newest"@ {
            CommitOrder::Newest
        } else {
            CommitOrder::Invalid
        },
    }
}

/// The order of the commits that the `sort_commits` setting asks for.
pub fn commit_order(sort_commits: Option<&str>) -> (r: CommitOrder)
    ensures
        r == commit_order_spec(match sort_commits {
            Some(s) => Some(s@),
            None => None,
        }),
{
    match sort_commits {
        None => CommitOrder::Newest,
        Some(s) => {
            let lower = to_lowercase(s);
            if str_equal(lower.as_str(), "oldest") {
                CommitOrder::Oldest
            } else if str_equal(lower.as_str(), "newest") {
                CommitOrder::Newest
            } else {
                CommitOrder::Invalid
            }
        },
    }
}

/// The version of a release is unchanged when it is the version of the previous release
/// (both unknown counts as unchanged).
pub fn is_version_unchanged(previous_version: Option<&str>, new_version: Option<&str>) -> (r: bool)
    ensures
        r == (match previous_version {
            Some(p) => Some(p@),
            None => None,
        } == match new_version {
            Some(n) => Some(n@),
            None => None::<Seq<char>>,
        }),
{
    match (previous_version, new_version) {
        (Some(p), Some(n)) => str_equal(p, n),
        (None, None) => true,
        _ => false,
    }
}

} // verus!
