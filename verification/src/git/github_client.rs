//! GitHub as a git hosting service.
use vstd::prelude::*;
use crate::git::backend::Remote;

verus! {

/// A repository on GitHub.
#[derive(Clone)]
pub struct GitHub {
    pub remote: Remote,
}

impl GitHub {
    /// A repository on github.com; the API base URL is `https://api.github.com/`.
    pub fn new(owner: String, repo: String, token: String) -> (r: GitHub)
        ensures
            r.remote.owner == owner,
            r.remote.repo == repo,
            r.remote.token == token,
            r.remote.base_url@ == "https://api.github.com/"@,
    {
        GitHub {
            remote: Remote { owner, repo, token, base_url: "https://api.github.com/".to_owned() },
        }
    }

    /// The same repository, reached through another API base URL (a serialized URL).
    pub fn with_base_url(self, base_url: String) -> (r: GitHub)
        ensures
            r.remote.owner == self.remote.owner,
            r.remote.repo == self.remote.repo,
            r.remote.token == self.remote.token,
            r.remote.base_url == base_url,
    {
        GitHub { remote: Remote { base_url, ..self.remote } }
    }
}

} // verus!
