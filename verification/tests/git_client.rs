use release_plz_core::git::backend::{
    validate_labels, BackendType, GitBackend, GitClient, GitHubCommit, GitHubCommitAuthor,
    GitLabAuthor, GitLabMr, Remote,
};
use release_plz_core::git::github_client::GitHub;

fn client(backend: BackendType, base_url: &str) -> GitClient {
    GitClient {
        backend,
        remote: Remote {
            owner: "o".to_string(),
            repo: "r".to_string(),
            token: "t".to_string(),
            base_url: base_url.to_string(),
        },
    }
}

#[test]
fn endpoints_of_github_and_gitea() {
    let gh = GitClient::new(GitBackend::Github(GitHub::new(
        "o".to_string(),
        "r".to_string(),
        "t".to_string(),
    )));
    assert_eq!(gh.pr_url(7), "https://api.github.com/repos/o/r/pulls/7");
    assert_eq!(gh.pr_labels_url(7), "https://api.github.com/repos/o/r/issues/7/labels");
    assert_eq!(gh.commits_api_path("abc"), "https://api.github.com/repos/o/r/commits/abc");
    assert_eq!(gh.associated_prs_url("abc"), "https://api.github.com/repos/o/r/commits/abc/pulls");
    assert_eq!(gh.param_value_pr_state_open(), "open");
    let gitea = client(BackendType::Gitea, "https://gitea.example/api/v1/");
    assert_eq!(gitea.commits_api_path("abc"), "https://gitea.example/api/v1/repos/o/r/git/commits/abc");
    assert_eq!(gitea.associated_prs_url("abc"), "https://gitea.example/api/v1/repos/o/r/commits/abc/pull");
    assert_eq!(gitea.close_pr_edit().state.as_deref(), Some("closed"));
}

#[test]
fn endpoints_of_gitlab() {
    let gl = client(BackendType::Gitlab, "https://gitlab.com/api/v4/projects/o%2Fr");
    assert_eq!(gl.pr_url(3), "https://gitlab.com/api/v4/projects/o%2Fr/merge_requests/3");
    assert_eq!(
        gl.associated_prs_url("abc"),
        "https://gitlab.com/api/v4/projects/o%2Fr/repository/commits/abc/merge_requests"
    );
    assert_eq!(gl.param_value_pr_state_open(), "opened");
    let edit = gl.close_pr_edit();
    assert_eq!(edit.state.as_deref(), Some("close"));
    assert!(edit.title.is_none() && edit.body.is_none());
}

#[test]
fn labels_must_be_short_and_not_blank() {
    assert!(validate_labels(&["release".to_string()]).is_ok());
    assert_eq!(
        validate_labels(&["ok".to_string(), " ".to_string()]).unwrap_err().to_string(),
        "Failed to add label. Empty labels are not allowed."
    );
    let long = "x".repeat(51);
    assert_eq!(
        validate_labels(&[long.clone()]).unwrap_err().to_string(),
        format!("Failed to add label `{long}`: it exceeds maximum length of 50 characters.")
    );
    assert!(validate_labels(&["x".repeat(50)]).is_ok());
}

#[test]
fn merge_request_becomes_a_pull_request_and_back() {
    let mr = GitLabMr {
        author: GitLabAuthor {
            username: "me".to_string(),
        },
        iid: 5,
        web_url: "https://gitlab.com/o/r/-/merge_requests/5".to_string(),
        sha: "abc".to_string(),
        source_branch: "release-plz-1".to_string(),
        title: "title".to_string(),
        description: String::new(),
        labels: vec!["l1".to_string(), "l2".to_string()],
    };
    let pr = mr.to_git_pr();
    assert_eq!(pr.number, 5);
    assert_eq!(pr.branch(), "release-plz-1");
    assert!(pr.body.is_none());
    assert_eq!(pr.label_names(), vec!["l1", "l2"]);
    let back = pr.to_gitlab_mr();
    assert_eq!(back.iid, 5);
    assert_eq!(back.description, "");
    assert_eq!(back.labels, vec!["l1".to_string(), "l2".to_string()]);
}

#[test]
fn commit_author_becomes_the_remote_username() {
    let c = GitHubCommit {
        sha: "s".to_string(),
        author: Some(GitHubCommitAuthor {
            login: Some("me".to_string()),
        }),
    };
    assert_eq!(c.to_remote_commit().username, Some("me".to_string()));
    let c = GitHubCommit {
        sha: "s".to_string(),
        author: None,
    };
    assert_eq!(c.to_remote_commit().username, None);
}
