//! GitLab as a git hosting service.
use vstd::prelude::*;
use crate::git::backend::Remote;
use crate::repo_url::{api_url_spec, escape_slashes, strip_leading_slash, RepoUrl};
use crate::url_text::{parse_url, url_parse_outcome};

verus! {

/// A project on a GitLab instance.
#[derive(Clone)]
pub struct GitLab {
    pub remote: Remote,
}

/// Why a GitLab project was refused: its API URL does not parse.
#[derive(Debug)]
pub struct GitLabError {
    /// The parser's message.
    pub reason: String,
}

impl GitLabError {
    /// The error message.
    pub fn to_string(&self) -> (s: String)
        ensures
            s@ == "invalid GitLab API URL"@,
    {
        "invalid GitLab API URL".to_owned()
    }
}

/// The GitLab API URL of a repository URL (see [`RepoUrl::gitlab_api_url`]).
pub open spec fn gitlab_api_url_spec(url: RepoUrl) -> Seq<char> {
    api_url_spec(
        if url@.scheme == "ssh"@ { "https"@ } else { url@.scheme },
        url@.host,
        url@.port,
        "api/v4/projects"@ + "/"@ + escape_slashes(strip_leading_slash(url@.path)),
    )
}

impl GitLab {
    /// The project of `url`; the API base URL is the parsed GitLab API URL of the project.
    pub fn new(url: RepoUrl, token: String) -> (r: Result<GitLab, GitLabError>)
        ensures
            match url_parse_outcome(gitlab_api_url_spec(url)) {
                Ok(base) => r matches Ok(g) && g.remote.base_url@ == base && g.remote.owner@ == url@.owner
                    && g.remote.repo@ == url@.name && g.remote.token == token,
                Err(reason) => r matches Err(e) && e.reason@ == reason,
            },
    {
        let api = url.gitlab_api_url();
        match parse_url(api.as_str()) {
            Ok(base_url) => {
                let (owner, repo) = url.into_owner_and_name();
                Ok(GitLab { remote: Remote { base_url, owner, repo, token } })
            },
            Err(reason) => Err(GitLabError { reason }),
        }
    }
}

} // verus!
