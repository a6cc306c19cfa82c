//! Requests to a git hosting service: pull requests, labels, commits and releases.
use vstd::prelude::*;
use crate::contributors::{contributors_of_authors, contributors_spec, logins_view};
use crate::git::gitea_client::Gitea;
use crate::git::github_client::GitHub;
use crate::git::gitlab_client::GitLab;
use crate::project::take_first;
use crate::text::{has_prefix, starts_with, str_equal, utf8_len, utf8_len_exceeds, all_white_space, chars_of, decimal, decimal_string, is_blank, opt_chars, push_str};

verus! {

/// A git hosting service with its repository.
#[derive(Clone)]
pub enum GitBackend {
    Github(GitHub),
    Gitea(Gitea),
    Gitlab(GitLab),
}

/// The kind of git hosting service.
#[derive(Clone, Copy, Debug, PartialEq, Eq, Structural)]
pub enum BackendType {
    Github,
    Gitea,
    Gitlab,
}

/// Requests to one repository of a git hosting service.
pub struct GitClient {
    pub backend: BackendType,
    pub remote: Remote,
}

/// A repository on a git hosting service.
/// It has no `Debug` impl, so that the token is never printed.
#[derive(Clone)]
pub struct Remote {
    pub owner: String,
    pub repo: String,
    /// The access token (a secret).
    pub token: String,
    /// The API base URL, as the `url` crate serializes it.
    pub base_url: String,
}

impl Remote {
    /// `{owner}/{repo}`.
    pub fn owner_slash_repo(&self) -> (r: String)
        ensures
            r@ == self.owner@ + "/"@ + self.repo@,
    {
        let mut r = String::new();
        push_str(&mut r, self.owner.as_str());
        push_str(&mut r, "/");
        push_str(&mut r, self.repo.as_str());
        r
    }
}

/// A commit of a pull request.
pub struct PrCommit {
    pub author: Option<Author>,
    pub sha: String,
}

/// The account of a commit or pull request author.
#[derive(Clone, Debug)]
pub struct Author {
    pub login: String,
}

/// A commit of a GitLab merge request.
#[derive(Clone, Debug)]
pub struct GitLabMrCommit {
    pub id: String,
}

impl vstd::std_specs::convert::FromSpecImpl<GitLabMrCommit> for PrCommit {
    open spec fn obeys_from_spec() -> bool {
        true
    }

    open spec fn from_spec(v: GitLabMrCommit) -> PrCommit {
        PrCommit { author: None, sha: v.id }
    }
}

impl From<GitLabMrCommit> for PrCommit {
    fn from(value: GitLabMrCommit) -> (r: PrCommit)
        ensures
            r.author is None,
            r.sha == value.id,
    {
        PrCommit { author: None, sha: value.id }
    }
}

/// Body of a release creation request.
pub struct CreateReleaseOption<'a> {
    pub tag_name: &'a str,
    pub body: &'a str,
    pub name: &'a str,
    pub draft: &'a bool,
    pub prerelease: &'a bool,
    /// Only supported by GitHub.
    pub make_latest: Option<String>,
}

/// A label of a pull request.
#[derive(Clone, Debug)]
pub struct Label {
    pub name: String,
    /// ID of the label.
    /// Used by Gitea and GitHub. Not present in GitLab responses.
    pub id: Option<u64>,
}

/// Author of a GitLab merge request.
#[derive(Clone, Debug)]
pub struct GitLabAuthor {
    pub username: String,
}

/// The head of a pull request.
#[derive(Clone, Debug)]
pub struct Commit {
    /// The branch name (`ref` in the API).
    pub ref_field: String,
    pub sha: String,
}

/// A pull request.
#[derive(Clone, Debug)]
pub struct GitPr {
    pub user: Author,
    pub number: u64,
    /// Web page of the pull request, as the `url` crate serializes it.
    pub html_url: String,
    pub head: Commit,
    pub title: String,
    pub body: Option<String>,
    pub labels: Vec<Label>,
}

impl GitPr {
    /// The branch of the pull request.
    pub fn branch(&self) -> (r: &str)
        ensures
            r@ == self.head.ref_field@,
    {
        self.head.ref_field.as_str()
    }

    /// The names of the labels, in order.
    pub fn label_names(&self) -> (r: Vec<&str>)
        ensures
            r@.len() == self.labels@.len(),
            forall|i: int| 0 <= i < r@.len() ==> r@[i]@ == #[trigger] self.labels@[i].name@,
    {
        let mut r: Vec<&str> = Vec::new();
        let mut i: usize = 0;
        while i < self.labels.len()
            invariant
                i <= self.labels@.len(),
                r@.len() == i,
                forall|k: int| 0 <= k < i ==> r@[k]@ == #[trigger] self.labels@[k].name@,
            decreases self.labels.len() - i,
        {
            r.push(self.labels[i].name.as_str());
            i += 1;
        }
        r
    }
}

/// A GitLab merge request.
#[derive(Clone, Debug)]
pub struct GitLabMr {
    pub author: GitLabAuthor,
    pub iid: u64,
    /// Web page of the merge request, as the `url` crate serializes it.
    pub web_url: String,
    pub sha: String,
    pub source_branch: String,
    pub title: String,
    pub description: String,
    pub labels: Vec<String>,
}

/// The pull request that a merge request corresponds to: an empty description is no body,
/// and labels carry no id.
pub open spec fn git_pr_of_mr(mr: GitLabMr, pr: GitPr) -> bool {
    &&& pr.number == mr.iid
    &&& pr.html_url@ == mr.web_url@
    &&& pr.head.ref_field@ == mr.source_branch@
    &&& pr.head.sha@ == mr.sha@
    &&& pr.title@ == mr.title@
    &&& pr.body == if mr.description@.len() == 0 { None } else { Some(mr.description) }
    &&& pr.user.login@ == mr.author.username@
    &&& pr.labels@.len() == mr.labels@.len()
    &&& forall|i: int| 0 <= i < pr.labels@.len() ==> {
        &&& #[trigger] pr.labels@[i].name@ == mr.labels@[i]@
        &&& pr.labels@[i].id is None
    }
}

/// The merge request that a pull request corresponds to: no body is an empty description,
/// and label ids are dropped.
pub open spec fn mr_of_git_pr(pr: GitPr, mr: GitLabMr) -> bool {
    &&& mr.iid == pr.number
    &&& mr.web_url@ == pr.html_url@
    &&& mr.source_branch@ == pr.head.ref_field@
    &&& mr.sha@ == pr.head.sha@
    &&& mr.title@ == pr.title@
    &&& mr.description@ == match pr.body {
        Some(b) => b@,
        None => Seq::<char>::empty(),
    }
    &&& mr.author.username@ == pr.user.login@
    &&& mr.labels@.len() == pr.labels@.len()
    &&& forall|i: int| 0 <= i < mr.labels@.len() ==> #[trigger] mr.labels@[i]@ == pr.labels@[i].name@
}

/// A merge request turned into a pull request and back is the same merge request: an empty
/// description becomes no body and then an empty description again.
pub proof fn law_merge_request_round_trip(mr: GitLabMr, pr: GitPr, back: GitLabMr)
    requires
        git_pr_of_mr(mr, pr),
        mr_of_git_pr(pr, back),
    ensures
        back.iid == mr.iid,
        back.web_url@ == mr.web_url@,
        back.source_branch@ == mr.source_branch@,
        back.sha@ == mr.sha@,
        back.title@ == mr.title@,
        back.description@ == mr.description@,
        back.author.username@ == mr.author.username@,
        back.labels.deep_view() == mr.labels.deep_view(),
{
    assert(back.labels.deep_view() =~= mr.labels.deep_view()) by {
        assert forall|i: int| 0 <= i < back.labels@.len() implies back.labels.deep_view()[i] == mr.labels.deep_view()[i] by {
            assert(back.labels@[i]@ == pr.labels@[i].name@);
            assert(pr.labels@[i].name@ == mr.labels@[i]@);
        }
    }
}

impl GitLabMr {
    /// The pull request that this merge request corresponds to.
    pub fn to_git_pr(self) -> (r: GitPr)
        ensures
            git_pr_of_mr(self, r),
    {
        let ghost mr = self;
        let body = if self.description.as_str().is_empty() { None } else { Some(self.description) };
        let mut labels: Vec<Label> = Vec::new();
        let mut i: usize = 0;
        while i < self.labels.len()
            invariant
                i <= self.labels@.len(),
                self.labels == mr.labels,
                body == if mr.description@.len() == 0 { None } else { Some(mr.description) },
                labels@.len() == i,
                forall|k: int| #![trigger labels@[k]] 0 <= k < i ==> {
                    &&& labels@[k].name@ == mr.labels@[k]@
                    &&& labels@[k].id is None
                },
            decreases self.labels.len() - i,
        {
            labels.push(Label { name: self.labels[i].clone(), id: None });
            i += 1;
        }
        let r = GitPr {
            number: self.iid,
            html_url: self.web_url,
            head: Commit { ref_field: self.source_branch, sha: self.sha },
            title: self.title,
            body,
            user: Author { login: self.author.username },
            labels,
        };
        r
    }
}

impl GitPr {
    /// The merge request that this pull request corresponds to.
    pub fn to_gitlab_mr(self) -> (r: GitLabMr)
        ensures
            mr_of_git_pr(self, r),
    {
        let ghost pr = self;
        let description = match self.body {
            Some(b) => b,
            None => String::new(),
        };
        let mut labels: Vec<String> = Vec::new();
        let mut i: usize = 0;
        while i < self.labels.len()
            invariant
                i <= self.labels@.len(),
                self.labels == pr.labels,
                labels@.len() == i,
                forall|k: int| 0 <= k < i ==> #[trigger] labels@[k]@ == pr.labels@[k].name@,
            decreases self.labels.len() - i,
        {
            labels.push(self.labels[i].name.clone());
            i += 1;
        }
        GitLabMr {
            author: GitLabAuthor { username: self.user.login },
            iid: self.number,
            web_url: self.html_url,
            sha: self.head.sha,
            source_branch: self.head.ref_field,
            title: self.title,
            description,
            labels,
        }
    }
}

/// Representation of a remote contributor.
#[derive(Debug, Default, Clone, Eq, PartialEq)]
pub struct RemoteCommit {
    /// Username of the author.
    pub username: Option<String>,
}

/// Edit of a GitLab merge request.
pub struct GitLabMrEdit {
    pub title: Option<String>,
    pub description: Option<String>,
    pub state_event: Option<String>,
}

/// Edit of a pull request: the fields to change.
pub struct PrEdit {
    pub title: Option<String>,
    pub body: Option<String>,
    pub state: Option<String>,
}

impl vstd::std_specs::convert::FromSpecImpl<PrEdit> for GitLabMrEdit {
    open spec fn obeys_from_spec() -> bool {
        true
    }

    open spec fn from_spec(v: PrEdit) -> GitLabMrEdit {
        GitLabMrEdit { title: v.title, description: v.body, state_event: v.state }
    }
}

impl From<PrEdit> for GitLabMrEdit {
    fn from(value: PrEdit) -> (r: GitLabMrEdit)
        ensures
            r.title == value.title,
            r.description == value.body,
            r.state_event == value.state,
    {
        GitLabMrEdit { title: value.title, description: value.body, state_event: value.state }
    }
}

impl Default for PrEdit {
    fn default() -> (r: PrEdit)
        ensures
            r.title is None,
            r.body is None,
            r.state is None,
    {
        PrEdit { title: None, body: None, state: None }
    }
}

impl PrEdit {
    /// An edit that changes nothing.
    pub fn new() -> (r: PrEdit)
        ensures
            r.title is None,
            r.body is None,
            r.state is None,
    {
        PrEdit { title: None, body: None, state: None }
    }

    /// Also changes the title.
    pub fn with_title(self, title: String) -> (r: PrEdit)
        ensures
            r.title == Some(title),
            r.body == self.body,
            r.state == self.state,
    {
        PrEdit { title: Some(title), ..self }
    }

    /// Also changes the body.
    pub fn with_body(self, body: String) -> (r: PrEdit)
        ensures
            r.title == self.title,
            r.body == Some(body),
            r.state == self.state,
    {
        PrEdit { body: Some(body), ..self }
    }

    /// Also changes the state.
    pub fn with_state(self, state: String) -> (r: PrEdit)
        ensures
            r.title == self.title,
            r.body == self.body,
            r.state == Some(state),
    {
        PrEdit { state: Some(state), ..self }
    }

    /// Whether the edit changes anything.
    pub fn contains_edit(&self) -> (r: bool)
        ensures
            r == (self.title is Some || self.body is Some || self.state is Some),
    {
        self.title.is_some() || self.body.is_some() || self.state.is_some()
    }
}

/// The login of a commit's author, if known.
pub open spec fn pr_commit_login(c: PrCommit) -> Option<Seq<char>> {
    match c.author {
        Some(a) => Some(a.login@),
        None => None,
    }
}

/// Returns the list of contributors for the given commits,
/// excluding the PR author and bots.
pub fn contributors_from_commits(commits: &[PrCommit]) -> (r: Vec<String>)
    ensures
        r.deep_view() == contributors_spec(commits@.map_values(|c: PrCommit| pr_commit_login(c))),
{
    let mut authors: Vec<Option<String>> = Vec::new();
    let mut i: usize = 0;
    while i < commits.len()
        invariant
            i <= commits@.len(),
            logins_view(authors@) == commits@.take(i as int).map_values(|c: PrCommit| pr_commit_login(c)),
        decreases commits.len() - i,
    {
        let login = match &commits[i].author {
            Some(a) => Some(a.login.clone()),
            None => None,
        };
        let ghost before = authors@;
        authors.push(login);
        assert(logins_view(authors@) =~= logins_view(before).push(pr_commit_login(commits@[i as int])));
        assert(commits@.take(i + 1).map_values(|c: PrCommit| pr_commit_login(c)) =~= commits@.take(
            i as int,
        ).map_values(|c: PrCommit| pr_commit_login(c)).push(pr_commit_login(commits@[i as int])));
        i += 1;
    }
    assert(commits@.take(commits@.len() as int) == commits@);
    contributors_of_authors(&authors)
}

/// Why a list of labels was refused.
#[derive(Debug, Clone)]
pub enum LabelError {
    /// The label is longer than 50 bytes.
    TooLong { label: String },
    /// The label is empty or white space.
    Empty,
}

/// A label is accepted when it holds at most 50 bytes and is not blank.
pub open spec fn label_is_valid(label: Seq<char>) -> bool {
    utf8_len(label) <= 50 && !all_white_space(label)
}

/// The error for an invalid label.
pub open spec fn label_error_for(label: Seq<char>) -> LabelErrorView {
    if utf8_len(label) > 50 { LabelErrorView::TooLong { label } } else { LabelErrorView::Empty }
}

/// Plain view of a [`LabelError`].
pub enum LabelErrorView {
    TooLong { label: Seq<char> },
    Empty,
}

impl View for LabelError {
    type V = LabelErrorView;

    open spec fn view(&self) -> LabelErrorView {
        match self {
            LabelError::TooLong { label } => LabelErrorView::TooLong { label: label@ },
            LabelError::Empty => LabelErrorView::Empty,
        }
    }
}

/// Message of a label error.
pub open spec fn label_error_message(e: LabelErrorView) -> Seq<char> {
    match e {
        LabelErrorView::TooLong { label } => "Failed to add label `"@ + label
            + "`: it exceeds maximum length of 50 characters."@,
        LabelErrorView::Empty => "Failed to add label. Empty labels are not allowed."@,
    }
}

impl LabelError {
    /// The error message.
    pub fn to_string(&self) -> (s: String)
        ensures
            s@ == label_error_message(self@),
    {
        let mut s = String::new();
        match self {
            LabelError::TooLong { label } => {
                push_str(&mut s, "Failed to add label `");
                push_str(&mut s, label.as_str());
                push_str(&mut s, "`: it exceeds maximum length of 50 characters.");
            },
            LabelError::Empty => {
                push_str(&mut s, "Failed to add label. Empty labels are not allowed.");
            },
        }
        s
    }
}

/// Checks that every label holds at most 50 bytes and is not blank; the first label that
/// does not is reported.
pub fn validate_labels(labels: &[String]) -> (r: Result<(), LabelError>)
    ensures
        r is Ok <==> forall|i: int| 0 <= i < labels@.len() ==> label_is_valid(#[trigger] labels@[i]@),
        r matches Err(e) ==> exists|i: int| {
            &&& 0 <= i < labels@.len()
            &&& !label_is_valid(#[trigger] labels@[i]@)
            &&& forall|j: int| 0 <= j < i ==> label_is_valid(#[trigger] labels@[j]@)
            &&& e@ == label_error_for(labels@[i]@)
        },
{
    let mut i: usize = 0;
    while i < labels.len()
        invariant
            i <= labels@.len(),
            forall|j: int| 0 <= j < i ==> label_is_valid(#[trigger] labels@[j]@),
        decreases labels.len() - i,
    {
        let l = &labels[i];
        if utf8_len_exceeds(l.as_str(), 50) {
            assert(!label_is_valid(labels@[i as int]@));
            return Err(LabelError::TooLong { label: l.clone() });
        }
        if is_blank(l.as_str()) {
            assert(!label_is_valid(labels@[i as int]@));
            return Err(LabelError::Empty);
        }
        assert(label_is_valid(labels@[i as int]@));
        i += 1;
    }
    Ok(())
}

/// Representation of a single commit.
#[derive(Default, Debug, Clone, PartialEq)]
pub struct GitHubCommit {
    /// SHA.
    pub sha: String,
    /// Author of the commit.
    pub author: Option<GitHubCommitAuthor>,
}

/// Author of the commit.
#[derive(Default, Debug, Clone, PartialEq)]
pub struct GitHubCommitAuthor {
    /// Username.
    pub login: Option<String>,
}

impl GitHubCommit {
    /// The remote contributor of this commit: its author's username, if any.
    pub fn to_remote_commit(self) -> (r: RemoteCommit)
        ensures
            r.username == match self.author {
                Some(a) => a.login,
                None => None,
            },
    {
        let username = match self.author {
            Some(author) => author.login,
            None => None,
        };
        RemoteCommit { username }
    }
}

/// `{base}repos/{owner}/{repo}` on GitHub and Gitea; the base URL itself on GitLab.
pub open spec fn repo_url_spec(backend: BackendType, remote: Remote) -> Seq<char> {
    match backend {
        BackendType::Gitlab => remote.base_url@,
        _ => remote.base_url@ + "repos/"@ + remote.owner@ + "/"@ + remote.repo@,
    }
}

/// The pull requests endpoint: `/pulls` on GitHub and Gitea, `/merge_requests` on GitLab.
pub open spec fn pulls_url_spec(backend: BackendType, remote: Remote) -> Seq<char> {
    repo_url_spec(backend, remote) + match backend {
        BackendType::Gitlab => "/merge_requests"@,
        _ => "/pulls"@,
    }
}

/// The issues endpoint.
pub open spec fn issues_url_spec(backend: BackendType, remote: Remote) -> Seq<char> {
    repo_url_spec(backend, remote) + "/issues"@
}

impl GitClient {
    /// A client for the repository of `backend`.
    pub fn new(backend: GitBackend) -> (r: GitClient)
        ensures
            r.backend == match backend {
                GitBackend::Github(_) => BackendType::Github,
                GitBackend::Gitea(_) => BackendType::Gitea,
                GitBackend::Gitlab(_) => BackendType::Gitlab,
            },
            r.remote == match backend {
                GitBackend::Github(g) => g.remote,
                GitBackend::Gitea(g) => g.remote,
                GitBackend::Gitlab(g) => g.remote,
            },
    {
        let (backend, remote) = match backend {
            GitBackend::Github(g) => (BackendType::Github, g.remote),
            GitBackend::Gitea(g) => (BackendType::Gitea, g.remote),
            GitBackend::Gitlab(g) => (BackendType::Gitlab, g.remote),
        };
        GitClient { backend, remote }
    }

    /// Name of the page size query parameter.
    pub fn per_page(&self) -> (r: &'static str)
        ensures
            r@ == if self.backend == BackendType::Gitea { "limit"@ } else { "per_page"@ },
    {
        match self.backend {
            BackendType::Github | BackendType::Gitlab => "per_page",
            BackendType::Gitea => "limit",
        }
    }

    /// The pull requests endpoint.
    pub fn pulls_url(&self) -> (r: String)
        ensures
            r@ == pulls_url_spec(self.backend, self.remote),
            self.backend != BackendType::Gitlab ==> r@ == self.remote.base_url@ + "repos/"@ + self.remote.owner@
                + "/"@ + self.remote.repo@ + "/pulls"@,
            self.backend == BackendType::Gitlab ==> r@ == self.remote.base_url@ + "/merge_requests"@,
    {
        let mut r = self.repo_url();
        match self.backend {
            BackendType::Github | BackendType::Gitea => push_str(&mut r, "/pulls"),
            BackendType::Gitlab => push_str(&mut r, "/merge_requests"),
        }
        r
    }

    /// The issues endpoint.
    pub fn issues_url(&self) -> (r: String)
        ensures
            r@ == issues_url_spec(self.backend, self.remote),
    {
        let mut r = self.repo_url();
        push_str(&mut r, "/issues");
        r
    }

    /// Value of the `state` query parameter that selects open pull requests.
    pub fn param_value_pr_state_open(&self) -> (r: &'static str)
        ensures
            r@ == if self.backend == BackendType::Gitlab { "opened"@ } else { "open"@ },
    {
        match self.backend {
            BackendType::Github | BackendType::Gitea => "open",
            BackendType::Gitlab => "opened",
        }
    }

    /// The repository endpoint.
    fn repo_url(&self) -> (r: String)
        ensures
            r@ == repo_url_spec(self.backend, self.remote),
    {
        let mut r = String::new();
        push_str(&mut r, self.remote.base_url.as_str());
        match self.backend {
            BackendType::Github | BackendType::Gitea => {
                push_str(&mut r, "repos/");
                let owner_repo = self.remote.owner_slash_repo();
                push_str(&mut r, owner_repo.as_str());
            },
            BackendType::Gitlab => {},
        }
        r
    }

    /// Value of the state that closes a pull request.
    pub fn closed_pr_state(&self) -> (r: &'static str)
        ensures
            r@ == if self.backend == BackendType::Gitlab { "close"@ } else { "closed"@ },
    {
        match self.backend {
            BackendType::Github | BackendType::Gitea => "closed",
            BackendType::Gitlab => "close",
        }
    }

    /// The edit that closes a pull request.
    pub fn close_pr_edit(&self) -> (r: PrEdit)
        ensures
            r.title is None,
            r.body is None,
            r.state matches Some(s) && s@ == if self.backend == BackendType::Gitlab { "close"@ } else { "closed"@ },
    {
        PrEdit::new().with_state(self.closed_pr_state().to_owned())
    }

    /// The endpoint of one pull request.
    pub fn pr_url(&self, pr_number: u64) -> (r: String)
        ensures
            r@ == pulls_url_spec(self.backend, self.remote) + "/"@ + decimal(pr_number as nat),
            self.backend != BackendType::Gitlab ==> r@ == self.remote.base_url@ + "repos/"@ + self.remote.owner@
                + "/"@ + self.remote.repo@ + "/pulls"@ + "/"@ + decimal(pr_number as nat),
            self.backend == BackendType::Gitlab ==> r@ == self.remote.base_url@ + "/merge_requests"@ + "/"@ + decimal(
                pr_number as nat,
            ),
    {
        let mut r = self.pulls_url();
        push_str(&mut r, "/");
        let n = decimal_string(pr_number);
        push_str(&mut r, n.as_str());
        r
    }

    /// The labels endpoint of a pull request.
    pub fn pr_labels_url(&self, pr_number: u64) -> (r: String)
        ensures
            r@ == issues_url_spec(self.backend, self.remote) + "/"@ + decimal(pr_number as nat) + "/labels"@,
    {
        let mut r = self.issues_url();
        push_str(&mut r, "/");
        let n = decimal_string(pr_number);
        push_str(&mut r, n.as_str());
        push_str(&mut r, "/labels");
        r
    }

    /// The endpoint of a commit: `git/commits/` on Gitea, `commits/` on GitHub.
    /// GitLab is not supported.
    pub fn commits_api_path(&self, commit: &str) -> (r: String)
        requires
            self.backend != BackendType::Gitlab,
        ensures
            r@ == repo_url_spec(self.backend, self.remote) + "/"@
                + if self.backend == BackendType::Gitea { "git/"@ + "commits/"@ } else { "commits/"@ } + commit@,
    {
        let mut r = self.repo_url();
        push_str(&mut r, "/");
        if self.backend == BackendType::Gitea {
            push_str(&mut r, "git/");
        }
        push_str(&mut r, "commits/");
        push_str(&mut r, commit);
        r
    }

    /// The endpoint listing the pull requests associated with a commit.
    pub fn associated_prs_url(&self, commit: &str) -> (r: String)
        ensures
            r@ == repo_url_spec(self.backend, self.remote) + match self.backend {
                BackendType::Github => "/commits/"@ + commit@ + "/pulls"@,
                BackendType::Gitea => "/commits/"@ + commit@ + "/pull"@,
                BackendType::Gitlab => "/repository/commits/"@ + commit@ + "/merge_requests"@,
            },
    {
        let mut r = self.repo_url();
        match self.backend {
            BackendType::Github => {
                push_str(&mut r, "/commits/");
                push_str(&mut r, commit);
                push_str(&mut r, "/pulls");
            },
            BackendType::Gitea => {
                push_str(&mut r, "/commits/");
                push_str(&mut r, commit);
                push_str(&mut r, "/pull");
            },
            BackendType::Gitlab => {
                push_str(&mut r, "/repository/commits/");
                push_str(&mut r, commit);
                push_str(&mut r, "/merge_requests");
            },
        }
        r
    }
}

/// The pull requests whose branch starts with `branch_prefix`, in order.
pub open spec fn release_prs_spec(prs: Seq<GitPr>, branch_prefix: Seq<char>) -> Seq<GitPr> {
    prs.filter(|pr: GitPr| has_prefix(pr.head.ref_field@, branch_prefix))
}

/// Keeps the pull requests of a page whose branch starts with `branch_prefix`.
pub fn filter_release_prs(prs: Vec<GitPr>, branch_prefix: &str) -> (r: Vec<GitPr>)
    ensures
        r@ == release_prs_spec(prs@, branch_prefix@),
{
    let ghost all = prs@;
    let ghost f = |pr: GitPr| has_prefix(pr.head.ref_field@, branch_prefix@);
    let prefix = chars_of(branch_prefix);
    assert(all.len() == prs.len());
    let mut rest = prs;
    let mut r: Vec<GitPr> = Vec::new();
    let mut k: usize = 0;
    while rest.len() > 0
        invariant
            k <= all.len(),
            all.len() <= usize::MAX,
            prefix@ == branch_prefix@,
            f == (|pr: GitPr| has_prefix(pr.head.ref_field@, branch_prefix@)),
            rest@ == all.skip(k as int),
            r@ == all.take(k as int).filter(f),
        decreases rest@.len(),
    {
        let pr = take_first(&mut rest);
        proof {
            assert(all.take(k + 1) == all.take(k as int).push(pr));
            all.take(k as int).lemma_filter_push(pr, f);
            assert(rest@ == all.skip(k + 1));
        }
        let branch = chars_of(pr.head.ref_field.as_str());
        if starts_with(branch.as_slice(), prefix.as_slice()) {
            r.push(pr);
        }
        k += 1;
    }
    assert(all.take(k as int) == all);
    r
}

/// A page shorter than the page size is the last one.
pub fn is_last_page(page_len: usize, page_size: usize) -> (r: bool)
    ensures
        r == (page_len < page_size),
{
    page_len < page_size
}

/// The id that the existing labels give to `name`: the last label of that name decides; none
/// when no label has that name.
pub open spec fn existing_label_id(existing: Seq<Label>, name: Seq<char>) -> Option<Option<u64>>
    decreases existing.len(),
{
    if existing.len() == 0 {
        None
    } else if existing.last().name@ == name {
        Some(existing.last().id)
    } else {
        existing_label_id(existing.drop_last(), name)
    }
}

/// The wanted labels split into those to create and the ids of those that exist, in order;
/// an existing label without id is an error.
pub open spec fn categorize_labels_spec(existing: Seq<Label>, wanted: Seq<Seq<char>>) -> Result<(Seq<Seq<char>>, Seq<u64>), Seq<char>>
    decreases wanted.len(),
{
    if wanted.len() == 0 {
        Ok((Seq::empty(), Seq::empty()))
    } else {
        match categorize_labels_spec(existing, wanted.drop_last()) {
            Err(e) => Err(e),
            Ok((to_create, ids)) => match existing_label_id(existing, wanted.last()) {
                Some(Some(id)) => Ok((to_create, ids.push(id))),
                Some(None) => Err("failed to extract id from label "@ + wanted.last()),
                None => Ok((to_create.push(wanted.last()), ids)),
            },
        }
    }
}

/// The id of the label named `name` among the existing labels (see [`existing_label_id`]).
fn find_label_id(existing: &Vec<Label>, name: &str) -> (r: Option<Option<u64>>)
    ensures
        r == existing_label_id(existing@, name@),
{
    let mut k: usize = existing.len();
    assert(existing@.take(k as int) == existing@);
    while k > 0
        invariant
            k <= existing@.len(),
            existing_label_id(existing@, name@) == existing_label_id(existing@.take(k as int), name@),
        decreases k,
    {
        let ghost pre = existing@.take(k as int);
        assert(pre.last() == existing@[k - 1]);
        assert(pre.drop_last() == existing@.take(k - 1));
        if str_equal(existing[k - 1].name.as_str(), name) {
            return Some(existing[k - 1].id);
        }
        k -= 1;
    }
    None
}

/// Splits the labels to add to a pull request into those to create and the ids of those that
/// exist (see [`categorize_labels_spec`]).
pub fn categorize_labels(existing: &Vec<Label>, labels: Vec<String>) -> (r: Result<(Vec<String>, Vec<u64>), String>)
    ensures
        match r {
            Ok((to_create, ids)) => categorize_labels_spec(existing@, labels.deep_view()) == Ok::<(Seq<Seq<char>>, Seq<u64>), Seq<char>>((to_create.deep_view(), ids@)),
            Err(e) => categorize_labels_spec(existing@, labels.deep_view()) == Err::<(Seq<Seq<char>>, Seq<u64>), Seq<char>>(e@),
        },
{
    let ghost wanted = labels.deep_view();
    let mut to_create: Vec<String> = Vec::new();
    let mut ids: Vec<u64> = Vec::new();
    let mut k: usize = 0;
    assert(to_create.deep_view() =~= Seq::<Seq<char>>::empty());
    assert(ids@ =~= Seq::<u64>::empty());
    assert(wanted.take(0) =~= Seq::<Seq<char>>::empty());
    while k < labels.len()
        invariant
            k <= labels@.len(),
            wanted == labels.deep_view(),
            categorize_labels_spec(existing@, wanted.take(k as int)) == Ok::<(Seq<Seq<char>>, Seq<u64>), Seq<char>>((to_create.deep_view(), ids@)),
        decreases labels.len() - k,
    {
        proof {
            assert(wanted.take(k + 1).drop_last() == wanted.take(k as int));
            assert(wanted.take(k + 1).last() == labels@[k as int]@);
        }
        match find_label_id(existing, labels[k].as_str()) {
            Some(Some(id)) => {
                ids.push(id);
            },
            Some(None) => {
                let mut e = String::new();
                push_str(&mut e, "failed to extract id from label ");
                push_str(&mut e, labels[k].as_str());
                proof {
                    assert(categorize_labels_spec(existing@, wanted.take(k + 1)) == Err::<(Seq<Seq<char>>, Seq<u64>), Seq<char>>(e@));
                    lemma_categorize_error_persists(existing@, wanted, k + 1, e@);
                    assert(wanted.take(labels@.len() as int) == wanted);
                }
                return Err(e);
            },
            None => {
                let ghost before = to_create.deep_view();
                to_create.push(labels[k].clone());
                assert(to_create.deep_view() == before.push(labels@[k as int]@));
            },
        }
        k += 1;
    }
    assert(wanted.take(labels@.len() as int) == wanted);
    Ok((to_create, ids))
}

/// Once the labels of a prefix give an error, the longer prefixes give it too.
proof fn lemma_categorize_error_persists(existing: Seq<Label>, wanted: Seq<Seq<char>>, k: int, e: Seq<char>)
    requires
        0 <= k <= wanted.len(),
        categorize_labels_spec(existing, wanted.take(k)) == Err::<(Seq<Seq<char>>, Seq<u64>), Seq<char>>(e),
    ensures
        categorize_labels_spec(existing, wanted) == Err::<(Seq<Seq<char>>, Seq<u64>), Seq<char>>(e),
    decreases wanted.len() - k,
{
    if k < wanted.len() {
        assert(wanted.take(k + 1).drop_last() == wanted.take(k));
        lemma_categorize_error_persists(existing, wanted, k + 1, e);
    } else {
        assert(wanted.take(k) == wanted);
    }
}

/// Every wanted label is either created or found: the two lists together are as long as the
/// wanted labels.
pub proof fn law_categorized_labels_cover_wanted(existing: Seq<Label>, wanted: Seq<Seq<char>>)
    ensures
        categorize_labels_spec(existing, wanted) matches Ok((to_create, ids)) ==> to_create.len() + ids.len() == wanted.len(),
    decreases wanted.len(),
{
    if wanted.len() > 0 {
        law_categorized_labels_cover_wanted(existing, wanted.drop_last());
    }
}

/// How the body of an associated pull requests response is read.
#[derive(Debug, PartialEq, Eq, Structural)]
pub enum AssociatedPrsBody {
    /// A list of pull requests (GitHub).
    PullRequests,
    /// One pull request (Gitea).
    PullRequest,
    /// A list of merge requests (GitLab), turned into pull requests.
    MergeRequests,
}

/// What a response to the associated pull requests request means.
#[derive(Debug, PartialEq, Eq)]
pub enum AssociatedPrsOutcome {
    /// Not found: the commit has no associated pull request.
    NoPrs,
    /// The host refused the commit (422): this error.
    Unprocessable(String),
    /// Another client or server error: the error of the response itself.
    Failed,
    /// Success: read the body this way.
    Read(AssociatedPrsBody),
}

/// The message given when the host answers 422: `error` is the response error as `Debug`
/// writes it.
pub open spec fn unprocessable_commit_message(base_url: Seq<char>, error: Seq<char>, commit: Seq<char>) -> Seq<char> {
    "Received the following error from "@ + base_url + ": "@ + error + ". Did you push the commit "@ + commit + "?"@
}

/// What the response with HTTP status `status` to the associated pull requests of `commit`
/// means; `error_debug` is the response error as `Debug` writes it.
pub fn associated_prs_outcome(backend: BackendType, status: u16, base_url: &str, error_debug: &str, commit: &str) -> (r: AssociatedPrsOutcome)
    ensures
        status == 404 ==> r == AssociatedPrsOutcome::NoPrs,
        status == 422 ==> (r matches AssociatedPrsOutcome::Unprocessable(m) && m@ == unprocessable_commit_message(
            base_url@,
            error_debug@,
            commit@,
        )),
        400 <= status < 600 && status != 404 && status != 422 ==> r == AssociatedPrsOutcome::Failed,
        !(400 <= status < 600) ==> r == AssociatedPrsOutcome::Read(
            match backend {
                BackendType::Github => AssociatedPrsBody::PullRequests,
                BackendType::Gitea => AssociatedPrsBody::PullRequest,
                BackendType::Gitlab => AssociatedPrsBody::MergeRequests,
            },
        ),
{
    if status == 404 {
        AssociatedPrsOutcome::NoPrs
    } else if status == 422 {
        let mut m = String::new();
        push_str(&mut m, "Received the following error from ");
        push_str(&mut m, base_url);
        push_str(&mut m, ": ");
        push_str(&mut m, error_debug);
        push_str(&mut m, ". Did you push the commit ");
        push_str(&mut m, commit);
        push_str(&mut m, "?");
        AssociatedPrsOutcome::Unprocessable(m)
    } else if 400 <= status && status < 600 {
        AssociatedPrsOutcome::Failed
    } else {
        AssociatedPrsOutcome::Read(
            match backend {
                BackendType::Github => AssociatedPrsBody::PullRequests,
                BackendType::Gitea => AssociatedPrsBody::PullRequest,
                BackendType::Gitlab => AssociatedPrsBody::MergeRequests,
            },
        )
    }
}

/// The pull requests endpoint is the repository endpoint (`{base}repos/{owner}/{repo}` on GitHub
/// and Gitea, the project URL on GitLab) followed by `/pulls` on GitHub and Gitea and by
/// `/merge_requests` on GitLab; the endpoint of one pull request adds `/` and its number.
pub proof fn law_pull_requests_endpoint(remote: Remote, number: u64)
    ensures
        pulls_url_spec(BackendType::Gitea, remote) + "/"@ + decimal(number as nat) == remote.base_url@ + "repos/"@
            + remote.owner@ + "/"@ + remote.repo@ + "/pulls"@ + "/"@ + decimal(number as nat),
        pulls_url_spec(BackendType::Github, remote) + "/"@ + decimal(number as nat) == remote.base_url@ + "repos/"@
            + remote.owner@ + "/"@ + remote.repo@ + "/pulls"@ + "/"@ + decimal(number as nat),
        pulls_url_spec(BackendType::Gitlab, remote) + "/"@ + decimal(number as nat) == remote.base_url@
            + "/merge_requests"@ + "/"@ + decimal(number as nat),
        pulls_url_spec(BackendType::Github, remote) == remote.base_url@ + "repos/"@ + remote.owner@ + "/"@
            + remote.repo@ + "/pulls"@,
        pulls_url_spec(BackendType::Gitea, remote) == remote.base_url@ + "repos/"@ + remote.owner@ + "/"@
            + remote.repo@ + "/pulls"@,
        pulls_url_spec(BackendType::Gitlab, remote) == remote.base_url@ + "/merge_requests"@,
{
}

} // verus!
