use release_plz_core::git::gitea_client::Gitea;
use release_plz_core::repo_url::{GitUrlParts, RepoUrl};

const GITHUB_REPO_URL: &str = "https://github.com/release-plz/release-plz";

#[test]
fn gh_release_link_works_for_first_release() {
    let repo = RepoUrl::new(GITHUB_REPO_URL).unwrap();
    let tag = "v0.0.1";
    let expected_url = format!("{GITHUB_REPO_URL}/releases/tag/{tag}");
    let release_link = repo.git_release_link(tag, tag);
    assert_eq!(expected_url, release_link);
}

#[test]
fn gh_release_link_for_crates_already_published() {
    let repo = RepoUrl::new(GITHUB_REPO_URL).unwrap();
    let previous_tag = "v0.1.0";
    let next_tag = "v0.5.0";
    let expected_url = format!("{GITHUB_REPO_URL}/compare/{previous_tag}...{next_tag}");
    let release_link = repo.git_release_link(previous_tag, next_tag);
    assert_eq!(expected_url, release_link);
}

#[test]
fn gitlab_api_url() {
    let git_repo = RepoUrl::new("git@host.example.com:ab/cd/myproj.git").unwrap();
    assert_eq!(
        "https://host.example.com/api/v4/projects/ab%2Fcd%2Fmyproj",
        git_repo.gitlab_api_url()
    );

    let http_repo = RepoUrl::new("https://host.example.com/ab/cd/myproj.git").unwrap();
    assert_eq!(
        "https://host.example.com/api/v4/projects/ab%2Fcd%2Fmyproj",
        http_repo.gitlab_api_url()
    );
}

#[test]
fn repo_url_fields_are_parsed() {
    let repo = RepoUrl::new("https://gitea.example.com:3000/me/proj.git").unwrap();
    assert_eq!(repo.host, "gitea.example.com");
    assert_eq!(repo.owner, "me");
    assert_eq!(repo.name, "proj");
    assert_eq!(repo.port(), Some(3000));
    assert_eq!(repo.scheme, "https");
    assert_eq!(repo.path, "/me/proj");
    assert_eq!(repo.gitea_api_url(), "https://gitea.example.com:3000/api/v1/");
    assert_eq!(repo.gitlab_api_url(), "https://gitea.example.com:3000/api/v4/projects/me%2Fproj");
    assert!(!repo.is_on_github());
    assert_eq!(repo.git_pr_link(), "https://gitea.example.com/me/proj/pulls");
    assert_eq!(repo.full_host(), "https://gitea.example.com/me/proj");
}

#[test]
fn github_pr_link_uses_pull() {
    let repo = RepoUrl::new(GITHUB_REPO_URL).unwrap();
    assert!(repo.is_on_github());
    assert_eq!(repo.git_pr_link(), format!("{GITHUB_REPO_URL}/pull"));
    assert_eq!(repo.gitea_api_url(), "https://github.com/api/v1/");
}

#[test]
fn repo_url_errors_are_reported() {
    let missing_owner = RepoUrl::from_git_url_parts(
        "https://example.com/repo",
        Ok(GitUrlParts {
            host: Some("example.com".to_string()),
            name: "repo".to_string(),
            owner: None,
            port: None,
            scheme: "https".to_string(),
            path: "/repo".to_string(),
        }),
    );
    assert_eq!(
        missing_owner.unwrap_err().to_string(),
        "cannot find owner in git url https://example.com/repo"
    );
    let missing_host = RepoUrl::from_git_url_parts(
        "file",
        Ok(GitUrlParts {
            host: None,
            name: "repo".to_string(),
            owner: Some("me".to_string()),
            port: None,
            scheme: "file".to_string(),
            path: "me/repo.git".to_string(),
        }),
    );
    assert_eq!(missing_host.unwrap_err().to_string(), "cannot find host in git url file");
    let bad = RepoUrl::from_git_url_parts("x", Err("boom".to_string()));
    assert_eq!(bad.unwrap_err().to_string(), "cannot parse git url x: boom");
    let ok = RepoUrl::from_git_url_parts(
        "git@h:o/r.git",
        Ok(GitUrlParts {
            host: Some("h".to_string()),
            name: "r".to_string(),
            owner: Some("o".to_string()),
            port: None,
            scheme: "ssh".to_string(),
            path: "o/r.git".to_string(),
        }),
    )
    .unwrap();
    assert_eq!(ok.path, "o/r");
    assert_eq!(ok.gitlab_api_url(), "https://h/api/v4/projects/o%2Fr");
}

#[test]
fn urls_the_git_url_parser_cannot_take_are_refused() {
    for url in ["ssh:x", "ssh://h/.", "https://dev.azure.com/a", "https://dev.azure.com/org/proj", "ssh://h/?x", "git@ssh.dev.azure.com:v3/org"] {
        let err = RepoUrl::new(url).unwrap_err();
        assert_eq!(
            err.to_string(),
            format!("cannot parse git url {url}: the URL's path is too short for its git host")
        );
    }
    for url in [
        "ssh://git@github.com/o/r.git",
        "https://github.com/Azure/azure-sdk-for-rust",
        "https://github.com/org/.github",
        "https://dev.azure.com/org/proj/_git/repo",
        "git@ssh.dev.azure.com:v3/org/proj/repo",
        "https://github.com/o/r?tab=readme",
    ] {
        assert!(RepoUrl::new(url).is_ok(), "{url}");
    }
}

#[test]
fn debug_string_matches_the_derived_debug() {
    let repo = RepoUrl::new("https://gitea.example.com:3000/me/proj.git").unwrap();
    assert_eq!(repo.debug_string(), format!("{repo:?}"));
    let mut odd = RepoUrl::new("https://h.example.com/o/n").unwrap();
    odd.scheme = "ftp".to_string();
    odd.host = "h\"\\\t\n\r\0\u{1}\u{7f}".to_string();
    odd.owner = "ö".to_string();
    assert_eq!(odd.debug_string(), format!("{odd:?}"));
}

#[test]
fn gitea_refuses_other_schemes_with_the_debug_form_of_the_url() {
    let repo = RepoUrl::new("ssh://git@host.example.com/me/proj.git").unwrap();
    let err = Gitea::new(repo.clone(), "t".to_string()).err().unwrap();
    assert_eq!(
        err.to_string(),
        format!("invalid scheme for gitea url, only `http` and `https` are supported: {repo:?}")
    );
}
