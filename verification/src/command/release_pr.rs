//! Decisions of the release pull request: which pull request to keep, what to edit in it, and
//! which branches may be rewritten.
use vstd::prelude::*;
use crate::git::backend::{contributors_from_commits, pr_commit_login, GitPr, PrCommit, PrEdit};
use crate::pr::{BRANCH_PREFIX, OLD_BRANCH_PREFIX};
use crate::update_request::UpdateRequest;
use crate::text::{chars_of, decimal, decimal_string, has_prefix, opt_chars, push_str, starts_with, str_equal};

verus! {

/// A request to open or update the release pull request.
pub struct ReleasePrRequest {
    /// Tera template for the release pull request name.
    pr_name_template: Option<String>,
    /// Tera template for the release pull request body.
    pr_body_template: Option<String>,
    /// If `true`, the created release PR will be marked as a draft.
    draft: bool,
    /// Labels to add to the release PR.
    labels: Vec<String>,
    /// PR Branch Prefix
    branch_prefix: String,
    pub update_request: UpdateRequest,
}

/// The settings of a [`ReleasePrRequest`], as plain values.
pub struct ReleasePrRequestView {
    pub pr_name_template: Option<Seq<char>>,
    pub pr_body_template: Option<Seq<char>>,
    pub draft: bool,
    pub labels: Seq<Seq<char>>,
    pub branch_prefix: Seq<char>,
    pub update_request: UpdateRequest,
}

impl View for ReleasePrRequest {
    type V = ReleasePrRequestView;

    closed spec fn view(&self) -> ReleasePrRequestView {
        ReleasePrRequestView {
            pr_name_template: opt_chars(self.pr_name_template),
            pr_body_template: opt_chars(self.pr_body_template),
            draft: self.draft,
            labels: self.labels.deep_view(),
            branch_prefix: self.branch_prefix@,
            update_request: self.update_request,
        }
    }
}

impl ReleasePrRequest {
    /// A request with no templates, not a draft, no labels and the default branch prefix.
    pub fn new(update_request: UpdateRequest) -> (r: Self)
        ensures
            r@ == (ReleasePrRequestView {
                pr_name_template: None,
                pr_body_template: None,
                draft: false,
                labels: Seq::empty(),
                branch_prefix: BRANCH_PREFIX@,
                update_request,
            }),
    {
        let mut branch_prefix = String::new();
        push_str(&mut branch_prefix, BRANCH_PREFIX);
        let r = Self {
            pr_name_template: None,
            pr_body_template: None,
            draft: false,
            labels: Vec::new(),
            branch_prefix,
            update_request,
        };
        assert(r.labels.deep_view() =~= Seq::<Seq<char>>::empty());
        r
    }

    pub fn with_pr_name_template(self, pr_name_template: Option<String>) -> (r: Self)
        ensures
            r@ == (ReleasePrRequestView { pr_name_template: opt_chars(pr_name_template), ..self@ }),
    {
        Self { pr_name_template, ..self }
    }

    pub fn with_pr_body_template(self, pr_body_template: Option<String>) -> (r: Self)
        ensures
            r@ == (ReleasePrRequestView { pr_body_template: opt_chars(pr_body_template), ..self@ }),
    {
        Self { pr_body_template, ..self }
    }

    pub fn with_labels(self, labels: Vec<String>) -> (r: Self)
        ensures
            r@ == (ReleasePrRequestView { labels: labels.deep_view(), ..self@ }),
    {
        Self { labels, ..self }
    }

    pub fn mark_as_draft(self, draft: bool) -> (r: Self)
        ensures
            r@ == (ReleasePrRequestView { draft, ..self@ }),
    {
        Self { draft, ..self }
    }

    /// The same request with the branch prefix `pr_branch_prefix`, if one is given.
    pub fn with_branch_prefix(self, pr_branch_prefix: Option<String>) -> (r: Self)
        ensures
            r@ == match pr_branch_prefix {
                Some(p) => ReleasePrRequestView { branch_prefix: p@, ..self@ },
                None => self@,
            },
    {
        match pr_branch_prefix {
            Some(branch_prefix) => Self { branch_prefix, ..self },
            None => self,
        }
    }

    pub fn pr_name_template(&self) -> (r: Option<&str>)
        ensures
            match r {
                Some(t) => self@.pr_name_template == Some(t@),
                None => self@.pr_name_template is None,
            },
    {
        match &self.pr_name_template {
            Some(t) => Some(t.as_str()),
            None => None,
        }
    }

    pub fn pr_body_template(&self) -> (r: Option<&str>)
        ensures
            match r {
                Some(t) => self@.pr_body_template == Some(t@),
                None => self@.pr_body_template is None,
            },
    {
        match &self.pr_body_template {
            Some(t) => Some(t.as_str()),
            None => None,
        }
    }

    pub fn is_draft(&self) -> (r: bool)
        ensures
            r == self@.draft,
    {
        self.draft
    }

    pub fn labels(&self) -> (r: &Vec<String>)
        ensures
            r.deep_view() == self@.labels,
    {
        &self.labels
    }

    pub fn branch_prefix(&self) -> (r: &str)
        ensures
            r@ == self@.branch_prefix,
    {
        self.branch_prefix.as_str()
    }
}

/// Release pull request that release-plz opened/updated.
#[derive(Debug)]
pub struct ReleasePr {
    /// The name of the branch where the changes are implemented.
    pub head_branch: String,
    /// The name of the branch the changes are pulled into.
    /// It is the default branch of the repository. E.g. `main`.
    pub base_branch: String,
    /// Url. Users can open it in the browser to see an html representation of the PR.
    pub html_url: String,
    /// Number
    pub number: u64,
}

/// The edit that brings an opened pull request to the title and body of the new one: only the
/// fields that differ.
pub open spec fn pr_edit_spec(opened: GitPr, title: Seq<char>, body: Seq<char>) -> (Option<Seq<char>>, Option<Seq<char>>) {
    (
        if opened.title@ != title { Some(title) } else { None },
        if opt_chars(opened.body) != Some(body) { Some(body) } else { None },
    )
}

/// The edit of the opened pull request `opened` for a new pull request with `title` and `body`.
pub fn pr_edit(opened: &GitPr, title: &str, body: &str) -> (e: PrEdit)
    ensures
        (opt_chars(e.title), opt_chars(e.body)) == pr_edit_spec(*opened, title@, body@),
        e.state is None,
{
    let mut e = PrEdit::new();
    if !str_equal(opened.title.as_str(), title) {
        let mut t = String::new();
        push_str(&mut t, title);
        e = e.with_title(t);
    }
    let same_body = match &opened.body {
        Some(b) => str_equal(b.as_str(), body),
        None => false,
    };
    if !same_body {
        let mut b = String::new();
        push_str(&mut b, body);
        e = e.with_body(b);
    }
    e
}

/// An opened pull request is edited exactly when its title or body differs from the new ones:
/// the edit that [`pr_edit`] gives contains something if and only if one of them differs.
pub proof fn law_pr_edit_is_empty_iff_unchanged(opened: GitPr, title: Seq<char>, body: Seq<char>, e: PrEdit)
    requires
        (opt_chars(e.title), opt_chars(e.body)) == pr_edit_spec(opened, title, body),
        e.state is None,
    ensures
        (e.title is Some || e.body is Some || e.state is Some) <==> (opened.title@ != title || opt_chars(opened.body)
            != Some(body)),
{
}

/// Whether the labels of the opened pull request differ from `labels`.
pub fn labels_changed(opened: &GitPr, labels: &Vec<String>) -> (r: bool)
    ensures
        r == (opened.labels@.map_values(|l: crate::git::backend::Label| l.name@) != labels.deep_view()),
{
    let ghost current = opened.labels@.map_values(|l: crate::git::backend::Label| l.name@);
    if opened.labels.len() != labels.len() {
        assert(current.len() != labels.deep_view().len());
        return true;
    }
    let mut k: usize = 0;
    while k < labels.len()
        invariant
            k <= labels@.len(),
            opened.labels@.len() == labels@.len(),
            current == opened.labels@.map_values(|l: crate::git::backend::Label| l.name@),
            forall|k2: int| 0 <= k2 < k ==> current[k2] == labels.deep_view()[k2],
        decreases labels.len() - k,
    {
        if !str_equal(opened.labels[k].name.as_str(), labels[k].as_str()) {
            assert(current[k as int] != labels.deep_view()[k as int]);
            return true;
        }
        k += 1;
    }
    assert(current =~= labels.deep_view());
    false
}

/// A branch that release-plz may rewrite: one that starts with the configured prefix, the
/// current prefix or the former one.
pub open spec fn is_release_branch_spec(branch: Seq<char>, branch_prefix: Seq<char>) -> bool {
    has_prefix(branch, branch_prefix) || has_prefix(branch, BRANCH_PREFIX@) || has_prefix(branch, OLD_BRANCH_PREFIX@)
}

/// Whether `branch` is a release branch (a sanity check before resetting it).
pub fn is_release_branch(branch: &str, branch_prefix: &str) -> (r: bool)
    ensures
        r == is_release_branch_spec(branch@, branch_prefix@),
{
    let b = chars_of(branch);
    let p = chars_of(branch_prefix);
    let current = chars_of(BRANCH_PREFIX);
    let old = chars_of(OLD_BRANCH_PREFIX);
    starts_with(b.as_slice(), p.as_slice()) || starts_with(b.as_slice(), current.as_slice())
        || starts_with(b.as_slice(), old.as_slice())
}

/// The commit that the branch of a pull request with `commits_number` commits is reset to.
pub fn reset_target(commits_number: u64) -> (r: String)
    ensures
        r@ == "HEAD~"@ + decimal(commits_number as nat),
{
    let mut r = String::new();
    push_str(&mut r, "HEAD~");
    let n = decimal_string(commits_number);
    push_str(&mut r, n.as_str());
    r
}

/// The refspec that rewrites the branch `branch` with the temporary branch `tmp_branch` of
/// the remote `remote`.
pub fn force_push_refspec(remote: &str, tmp_branch: &str, branch: &str) -> (r: String)
    ensures
        r@ == remote@ + "/"@ + tmp_branch@ + ":"@ + branch@,
{
    let mut r = String::new();
    push_str(&mut r, remote);
    push_str(&mut r, "/");
    push_str(&mut r, tmp_branch);
    push_str(&mut r, ":");
    push_str(&mut r, branch);
    r
}

/// The opened release pull request can be force-pushed only when nobody but release-plz
/// committed to it.
pub fn can_force_push(pr_commits: &[PrCommit]) -> (r: bool)
    ensures
        r == (crate::contributors::contributors_spec(pr_commits@.map_values(|c: PrCommit| pr_commit_login(c))).len() == 0),
{
    let contributors = contributors_from_commits(pr_commits);
    contributors.len() == 0
}

/// What the release pull request command does once the update is computed.
#[derive(Debug, PartialEq, Eq, Structural)]
pub enum ReleasePrStep {
    /// All packages are up to date, or the update changed no file: no pull request.
    NothingToDo,
    /// Open a release pull request, or update the one that is open.
    OpenOrUpdate,
}

/// The step after the update: a pull request only when some package is updated and the update
/// left changes to commit.
pub fn release_pr_step(has_updates: bool, has_changes_to_commit: bool) -> (r: ReleasePrStep)
    ensures
        r == if has_updates && has_changes_to_commit { ReleasePrStep::OpenOrUpdate } else { ReleasePrStep::NothingToDo },
{
    if has_updates && has_changes_to_commit {
        ReleasePrStep::OpenOrUpdate
    } else {
        ReleasePrStep::NothingToDo
    }
}

/// Whether the release pull requests with the old branch prefix are looked up: only when none
/// is open with the current prefix.
pub fn look_up_old_prefix_prs(opened_with_current_prefix: &Vec<GitPr>) -> (r: bool)
    ensures
        r == (opened_with_current_prefix@.len() == 0),
{
    opened_with_current_prefix.len() == 0
}

/// What to do with the opened release pull requests: close all but the first, and keep the
/// first (to update it), if there is one.
pub struct OpenedPrsPlan {
    /// Numbers of the pull requests to close, in order.
    pub to_close: Vec<u64>,
    /// Number of the pull request to keep.
    pub keep: Option<u64>,
}

/// The plan for the opened release pull requests `opened`.
pub fn opened_prs_plan(opened: &Vec<GitPr>) -> (r: OpenedPrsPlan)
    ensures
        r.keep == if opened@.len() == 0 { None } else { Some(opened@[0].number) },
        r.to_close@.len() == if opened@.len() == 0 { 0 } else { opened@.len() - 1 },
        forall|k: int| 0 <= k < r.to_close@.len() ==> #[trigger] r.to_close@[k] == opened@[k + 1].number,
{
    let mut to_close: Vec<u64> = Vec::new();
    let mut k: usize = 1;
    while k < opened.len()
        invariant
            1 <= k,
            opened@.len() > 0 ==> k <= opened@.len(),
            opened@.len() == 0 ==> k == 1,
            to_close@.len() == k - 1,
            forall|j: int| 0 <= j < to_close@.len() ==> #[trigger] to_close@[j] == opened@[j + 1].number,
        decreases opened.len() - k,
    {
        to_close.push(opened[k].number);
        k += 1;
    }
    let keep = if opened.len() == 0 { None } else { Some(opened[0].number) };
    OpenedPrsPlan { to_close, keep }
}

/// What to do with the kept release pull request.
#[derive(Debug, PartialEq, Eq, Structural)]
pub enum OpenedPrAction {
    /// Nobody else committed to it: force-push the new changes and edit it in place.
    UpdateInPlace,
    /// Somebody committed to it: close it, to keep their work, and open a new one.
    CloseAndOpenNew,
}

/// The action on the kept release pull request with commits `pr_commits`.
pub fn opened_pr_action(pr_commits: &[PrCommit]) -> (r: OpenedPrAction)
    ensures
        r == if crate::contributors::contributors_spec(pr_commits@.map_values(|c: PrCommit| pr_commit_login(c))).len() == 0 {
            OpenedPrAction::UpdateInPlace
        } else {
            OpenedPrAction::CloseAndOpenNew
        },
{
    if can_force_push(pr_commits) {
        OpenedPrAction::UpdateInPlace
    } else {
        OpenedPrAction::CloseAndOpenNew
    }
}

/// When updating the kept pull request in place fails, it is closed and a new one is opened.
pub fn after_update_attempt(update_succeeded: bool) -> (r: OpenedPrAction)
    ensures
        r == if update_succeeded { OpenedPrAction::UpdateInPlace } else { OpenedPrAction::CloseAndOpenNew },
{
    if update_succeeded {
        OpenedPrAction::UpdateInPlace
    } else {
        OpenedPrAction::CloseAndOpenNew
    }
}

} // verus!
