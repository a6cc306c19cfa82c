//! What the changelog template needs to know of each commit.
use vstd::prelude::*;
use crate::text::{contains_seq, str_contains};

verus! {

/// The commit information that the changelog template reads.
#[derive(Debug)]
pub struct RequiredInfo {
    author_name: bool,
    author_email: bool,
    committer_name: bool,
    committer_email: bool,
    remote_username: bool,
    remote_pr_number: bool,
}

/// Plain view of [`RequiredInfo`]: author name, author email, committer name, committer
/// email, remote username, remote pull request number.
pub type RequiredInfoView = (bool, bool, bool, bool, bool, bool);

impl View for RequiredInfo {
    type V = RequiredInfoView;

    closed spec fn view(&self) -> RequiredInfoView {
        (
            self.author_name,
            self.author_email,
            self.committer_name,
            self.committer_email,
            self.remote_username,
            self.remote_pr_number,
        )
    }
}

/// What a changelog template with the given body needs: each field that the body mentions.
/// Without a body, nothing.
pub open spec fn required_info_spec(body: Option<Seq<char>>) -> RequiredInfoView {
    match body {
        Some(b) => (
            contains_seq(b, "author.name"@),
            contains_seq(b, "author.email"@),
            contains_seq(b, "committer.name"@),
            contains_seq(b, "committer.email"@),
            contains_seq(b, "remote.username"@),
            contains_seq(b, "remote.pr_number"@),
        ),
        None => (false, false, false, false, false, false),
    }
}

impl RequiredInfo {
    /// Whether information must be asked of the git host: the username of the author or the
    /// pull request of the commit.
    pub fn is_remote_required(&self) -> (r: bool)
        ensures
            r == (self@.4 || self@.5),
    {
        self.remote_username || self.remote_pr_number
    }
}

/// What the changelog template with the given body needs to know of each commit.
pub fn get_required_info(body: Option<&str>) -> (r: RequiredInfo)
    ensures
        r@ == required_info_spec(match body {
            Some(b) => Some(b@),
            None => None,
        }),
{
    let mut required_info = RequiredInfo {
        author_name: false,
        author_email: false,
        committer_name: false,
        committer_email: false,
        remote_username: false,
        remote_pr_number: false,
    };
    if let Some(body) = body {
        required_info.author_name = str_contains(body, "author.name");
        required_info.author_email = str_contains(body, "author.email");
        required_info.committer_name = str_contains(body, "committer.name");
        required_info.committer_email = str_contains(body, "committer.email");
        required_info.remote_username = str_contains(body, "remote.username");
        required_info.remote_pr_number = str_contains(body, "remote.pr_number");
    }
    required_info
}

/// The message of the error when the template needs the git host but no token was given.
pub open spec fn missing_git_client_message() -> Seq<char> {
    "The changelog template requires information from the remote, but git token wasn't provided"@
}

/// Checks that the git host can be asked when the template needs it: `has_git_client` tells
/// whether a client (with its token) is available.
pub fn check_remote_access(required_info: &RequiredInfo, has_git_client: bool) -> (r: Result<(), String>)
    ensures
        (required_info@.4 || required_info@.5) && !has_git_client ==> (r matches Err(e) && e@
            == missing_git_client_message()),
        !(required_info@.4 || required_info@.5) || has_git_client ==> r is Ok,
{
    if required_info.is_remote_required() && !has_git_client {
        let mut e = String::new();
        crate::text::push_str(
            &mut e,
            "The changelog template requires information from the remote, but git token wasn't provided",
        );
        Err(e)
    } else {
        Ok(())
    }
}

/// The pull request number recorded for a commit: the number of the first pull request
/// associated with it, when it fits in an `i64`.
pub fn remote_pr_number(associated_pr_numbers: &[u64]) -> (r: Option<i64>)
    ensures
        associated_pr_numbers@.len() == 0 ==> r is None,
        associated_pr_numbers@.len() > 0 && associated_pr_numbers@[0] <= i64::MAX ==> r == Some(
            associated_pr_numbers@[0] as i64,
        ),
        associated_pr_numbers@.len() > 0 && associated_pr_numbers@[0] > i64::MAX ==> r is None,
{
    if associated_pr_numbers.len() == 0 {
        None
    } else {
        let n = associated_pr_numbers[0];
        if n <= 9223372036854775807u64 {
            Some(n as i64)
        } else {
            None
        }
    }
}

} // verus!
