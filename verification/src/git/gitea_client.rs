//! Gitea as a git hosting service.
use vstd::prelude::*;
use crate::git::backend::Remote;
use crate::repo_url::{api_url_spec, repo_url_debug_spec, RepoUrl};
use crate::text::{push_str, str_equal};
use crate::url_text::{parse_url, url_parse_outcome};

verus! {

/// A repository on a Gitea instance.
#[derive(Clone)]
pub struct Gitea {
    pub remote: Remote,
}

/// Why a Gitea repository was refused.
#[derive(Debug)]
pub enum GiteaError {
    /// The URL scheme is neither `http` nor `https`.
    InvalidScheme { url: RepoUrl },
    /// The API URL does not parse; `reason` is the parser's message.
    InvalidApiUrl { reason: String },
}

impl GiteaError {
    /// The error message; for an invalid scheme it ends with the `Debug` form of the URL.
    pub fn to_string(&self) -> (s: String)
        ensures
            self matches GiteaError::InvalidApiUrl { .. } ==> s@ == "invalid Gitea API URL"@,
            self matches GiteaError::InvalidScheme { url } ==> s@
                == "invalid scheme for gitea url, only `http` and `https` are supported: "@
                + repo_url_debug_spec(url@),
    {
        let mut s = String::new();
        match self {
            GiteaError::InvalidScheme { url } => {
                push_str(&mut s, "invalid scheme for gitea url, only `http` and `https` are supported: ");
                let d = url.debug_string();
                push_str(&mut s, d.as_str());
            },
            GiteaError::InvalidApiUrl { .. } => {
                push_str(&mut s, "invalid Gitea API URL");
            },
        }
        s
    }
}

impl Gitea {
    /// A repository on the Gitea instance of `url`; the scheme must be `http` or `https`.
    /// The API base URL is the parsed `{scheme}://{host}[:{port}]/api/v1/`.
    pub fn new(url: RepoUrl, token: String) -> (r: Result<Gitea, GiteaError>)
        ensures
            !(url@.scheme == "http"@ || url@.scheme == "https"@) ==> r matches Err(GiteaError::InvalidScheme { .. }),
            (url@.scheme == "http"@ || url@.scheme == "https"@) ==> match url_parse_outcome(
                api_url_spec(url@.scheme, url@.host, url@.port, "api/v1/"@),
            ) {
                Ok(base) => r matches Ok(g) && g.remote.base_url@ == base && g.remote.owner@ == url@.owner
                    && g.remote.repo@ == url@.name && g.remote.token == token,
                Err(reason) => r matches Err(GiteaError::InvalidApiUrl { reason: e }) && e@ == reason,
            },
    {
        if !(str_equal(url.scheme_str(), "http") || str_equal(url.scheme_str(), "https")) {
            return Err(GiteaError::InvalidScheme { url });
        }
        let api = url.gitea_api_url();
        match parse_url(api.as_str()) {
            Ok(base_url) => {
                let (owner, repo) = url.into_owner_and_name();
                Ok(Gitea { remote: Remote { base_url, owner, repo, token } })
            },
            Err(reason) => Err(GiteaError::InvalidApiUrl { reason }),
        }
    }
}

} // verus!
