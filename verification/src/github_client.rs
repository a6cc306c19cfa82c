//! GitHub pull requests and commits, as the first GitHub client described them.
use vstd::prelude::*;
use crate::contributors::{contributors_of_authors, contributors_spec, logins_view};

verus! {

/// Body of a release creation request.
pub struct CreateReleaseOption<'a> {
    pub tag_name: &'a str,
    pub body: &'a str,
    pub name: &'a str,
}

/// A GitHub pull request.
pub struct GitHubPr {
    pub number: u64,
    /// Web page of the pull request, as the `url` crate serializes it.
    pub html_url: String,
    pub head: Commit,
}

impl GitHubPr {
    /// The branch of the pull request.
    pub fn branch(&self) -> (r: &str)
        ensures
            r@ == self.head.ref_field@,
    {
        self.head.ref_field.as_str()
    }
}

/// The head of a pull request.
pub struct Commit {
    /// The branch name (`ref` in the API).
    pub ref_field: String,
    pub sha: String,
}

/// A commit of a pull request.
pub struct PrCommit {
    pub author: Option<Author>,
    pub parents: Vec<CommitParent>,
}

impl PrCommit {
    /// Get the parent commit sha.
    pub fn parent(&self) -> (r: Option<&str>)
        ensures
            self.parents@.len() == 0 ==> r is None,
            self.parents@.len() > 0 ==> (r matches Some(s) && s@ == self.parents@[0].sha@),
    {
        if self.parents.len() == 0 {
            None
        } else {
            Some(self.parents[0].sha.as_str())
        }
    }
}

/// A parent of a commit.
pub struct CommitParent {
    pub sha: String,
}

/// The account of a commit author.
pub struct Author {
    pub login: String,
}

/// A repository on GitHub.
pub struct GitHub {
    pub owner: String,
    pub repo: String,
    /// The access token (a secret).
    pub token: String,
    /// The API base URL, as the `url` crate serializes it; github.com when absent.
    pub base_url: Option<String>,
}

impl GitHub {
    /// A repository on github.com.
    pub fn new(owner: String, repo: String, token: String) -> (r: GitHub)
        ensures
            r.owner == owner,
            r.repo == repo,
            r.token == token,
            r.base_url is None,
    {
        GitHub { owner, repo, token, base_url: None }
    }

    /// The same repository, reached through another API base URL.
    pub fn with_base_url(self, base_url: String) -> (r: GitHub)
        ensures
            r.owner == self.owner,
            r.repo == self.repo,
            r.token == self.token,
            r.base_url == Some(base_url),
    {
        GitHub { base_url: Some(base_url), ..self }
    }
}

/// The login of a commit's author, if known.
pub open spec fn pr_commit_login(c: PrCommit) -> Option<Seq<char>> {
    match c.author {
        Some(a) => Some(a.login@),
        None => None,
    }
}

/// Returns the list of contributors for the given commits,
/// excluding the PR author and bots.
pub fn contributors_from_commits(commits: &[PrCommit]) -> (r: Vec<String>)
    ensures
        r.deep_view() == contributors_spec(commits@.map_values(|c: PrCommit| pr_commit_login(c))),
{
    let mut authors: Vec<Option<String>> = Vec::new();
    let mut i: usize = 0;
    while i < commits.len()
        invariant
            i <= commits@.len(),
            logins_view(authors@) == commits@.take(i as int).map_values(|c: PrCommit| pr_commit_login(c)),
        decreases commits.len() - i,
    {
        let login = match &commits[i].author {
            Some(a) => Some(a.login.clone()),
            None => None,
        };
        let ghost before = authors@;
        authors.push(login);
        assert(logins_view(authors@) =~= logins_view(before).push(pr_commit_login(commits@[i as int])));
        assert(commits@.take(i + 1).map_values(|c: PrCommit| pr_commit_login(c)) =~= commits@.take(
            i as int,
        ).map_values(|c: PrCommit| pr_commit_login(c)).push(pr_commit_login(commits@[i as int])));
        i += 1;
    }
    assert(commits@.take(commits@.len() as int) == commits@);
    contributors_of_authors(&authors)
}

} // verus!
