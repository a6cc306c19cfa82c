//! Pull requests and commits on GitHub, Gitea and GitLab, as the first release of the
//! git backends described them.
use vstd::prelude::*;
use crate::contributors::{contributors_of_authors, contributors_spec, logins_view};

verus! {

/// Body of a GitLab release creation request.
pub struct GitlabReleaseOption<'a> {
    pub tag_name: &'a str,
    pub description: &'a str,
}

/// The kind of git hosting service.
#[derive(Debug, Clone, Copy, PartialEq, Eq, Structural)]
pub enum BackendType {
    Github,
    Gitea,
    Gitlab,
}

/// A commit of a pull request.
pub struct PrCommit {
    pub author: Option<Author>,
}

/// A parent of a commit.
pub struct CommitParent {
    pub sha: String,
}

/// The account of a commit author.
pub struct Author {
    pub login: String,
}

/// Body of a GitHub/Gitea release creation request.
pub struct CreateReleaseOption<'a> {
    pub tag_name: &'a str,
    pub body: &'a str,
    pub name: &'a str,
}

/// A pull request.
pub struct GitPr {
    pub number: u64,
    /// Web page of the pull request, as the `url` crate serializes it.
    pub html_url: String,
    pub head: Commit,
    pub title: String,
    pub body: String,
}

impl GitPr {
    /// The branch of the pull request.
    pub fn branch(&self) -> (r: &str)
        ensures
            r@ == self.head.ref_field@,
    {
        self.head.ref_field.as_str()
    }
}

/// The head of a pull request.
pub struct Commit {
    /// The branch name (`ref` in the API).
    pub ref_field: String,
    pub sha: String,
}

/// Edit of a pull request: the fields to change.
pub struct PrEdit {
    pub title: Option<String>,
    pub body: Option<String>,
    pub state: Option<String>,
}

impl Default for PrEdit {
    fn default() -> (r: PrEdit)
        ensures
            r.title is None,
            r.body is None,
            r.state is None,
    {
        PrEdit { title: None, body: None, state: None }
    }
}

impl PrEdit {
    /// An edit that changes nothing.
    pub fn new() -> (r: PrEdit)
        ensures
            r.title is None,
            r.body is None,
            r.state is None,
    {
        PrEdit { title: None, body: None, state: None }
    }

    /// Also changes the title.
    pub fn with_title(self, title: String) -> (r: PrEdit)
        ensures
            r.title == Some(title),
            r.body == self.body,
            r.state == self.state,
    {
        PrEdit { title: Some(title), ..self }
    }

    /// Also changes the body.
    pub fn with_body(self, body: String) -> (r: PrEdit)
        ensures
            r.title == self.title,
            r.body == Some(body),
            r.state == self.state,
    {
        PrEdit { body: Some(body), ..self }
    }

    /// Also changes the state.
    pub fn with_state(self, state: String) -> (r: PrEdit)
        ensures
            r.title == self.title,
            r.body == self.body,
            r.state == Some(state),
    {
        PrEdit { state: Some(state), ..self }
    }

    /// Whether the edit changes anything.
    pub fn contains_edit(&self) -> (r: bool)
        ensures
            r == (self.title is Some || self.body is Some || self.state is Some),
    {
        self.title.is_some() || self.body.is_some() || self.state.is_some()
    }
}

/// The login of a commit's author, if known.
pub open spec fn pr_commit_login(c: PrCommit) -> Option<Seq<char>> {
    match c.author {
        Some(a) => Some(a.login@),
        None => None,
    }
}

/// Returns the list of contributors for the given commits,
/// excluding the PR author and bots.
pub fn contributors_from_commits(commits: &[PrCommit]) -> (r: Vec<String>)
    ensures
        r.deep_view() == contributors_spec(commits@.map_values(|c: PrCommit| pr_commit_login(c))),
{
    let mut authors: Vec<Option<String>> = Vec::new();
    let mut i: usize = 0;
    while i < commits.len()
        invariant
            i <= commits@.len(),
            logins_view(authors@) == commits@.take(i as int).map_values(|c: PrCommit| pr_commit_login(c)),
        decreases commits.len() - i,
    {
        let login = match &commits[i].author {
            Some(a) => Some(a.login.clone()),
            None => None,
        };
        let ghost before = authors@;
        authors.push(login);
        assert(logins_view(authors@) =~= logins_view(before).push(pr_commit_login(commits@[i as int])));
        assert(commits@.take(i + 1).map_values(|c: PrCommit| pr_commit_login(c)) =~= commits@.take(
            i as int,
        ).map_values(|c: PrCommit| pr_commit_login(c)).push(pr_commit_login(commits@[i as int])));
        i += 1;
    }
    assert(commits@.take(commits@.len() as int) == commits@);
    contributors_of_authors(&authors)
}

} // verus!
