use release_plz_core::backend;
use release_plz_core::git::backend::{contributors_from_commits, Author, PrCommit};
use release_plz_core::github_client;

#[test]
fn backend_contributors_are_extracted_from_commits() {
    let commits = vec![
        PrCommit {
            author: Some(Author {
                login: "bob".to_string(),
            }),
            sha: "abc".to_string(),
        },
        PrCommit {
            author: Some(Author {
                login: "marco".to_string(),
            }),
            sha: "abc".to_string(),
        },
        PrCommit {
            author: Some(Author {
                login: "release[bot]".to_string(),
            }),
            sha: "abc".to_string(),
        },
        PrCommit {
            author: None,
            sha: "abc".to_string(),
        },
    ];
    let contributors = contributors_from_commits(&commits);
    assert_eq!(contributors, vec!["marco"]);

    let commits = vec![
        backend::PrCommit {
            author: Some(backend::Author {
                login: "bob".to_string(),
            }),
        },
        backend::PrCommit {
            author: Some(backend::Author {
                login: "marco".to_string(),
            }),
        },
        backend::PrCommit {
            author: Some(backend::Author {
                login: "release[bot]".to_string(),
            }),
        },
        backend::PrCommit { author: None },
    ];
    let contributors = backend::contributors_from_commits(&commits);
    assert_eq!(contributors, vec!["marco"]);
}

#[test]
fn github_client_contributors_are_extracted_from_commits() {
    let commits = vec![
        github_client::PrCommit {
            author: Some(github_client::Author {
                login: "bob".to_string(),
            }),
            parents: vec![github_client::CommitParent {
                sha: "123".to_string(),
            }],
        },
        github_client::PrCommit {
            author: Some(github_client::Author {
                login: "marco".to_string(),
            }),
            parents: vec![github_client::CommitParent {
                sha: "123".to_string(),
            }],
        },
        github_client::PrCommit {
            author: Some(github_client::Author {
                login: "release[bot]".to_string(),
            }),
            parents: vec![],
        },
        github_client::PrCommit {
            author: None,
            parents: vec![],
        },
    ];
    let contributors = github_client::contributors_from_commits(&commits);
    assert_eq!(contributors, vec!["marco"]);
}

fn commit(login: Option<&str>) -> PrCommit {
    PrCommit {
        author: login.map(|l| Author { login: l.to_string() }),
        sha: "1".to_string(),
    }
}

#[test]
fn first_commit_author_is_not_a_contributor() {
    let commits = vec![commit(Some("alice"))];
    assert!(contributors_from_commits(&commits).is_empty());
    assert!(contributors_from_commits(&[]).is_empty());
}

#[test]
fn adjacent_duplicates_are_removed_but_not_distant_ones() {
    let commits = vec![
        commit(Some("author")),
        commit(Some("a")),
        commit(Some("a")),
        commit(Some("dependabot[bot]")),
        commit(Some("b")),
        commit(None),
        commit(Some("a")),
    ];
    assert_eq!(contributors_from_commits(&commits), vec!["a", "b", "a"]);
}

#[test]
fn bot_suffix_must_be_at_the_end() {
    let commits = vec![commit(Some("x")), commit(Some("[bot]man")), commit(Some("bot"))];
    assert_eq!(contributors_from_commits(&commits), vec!["[bot]man", "bot"]);
}

#[test]
fn pr_author_is_not_a_contributor_even_with_later_commits() {
    let commit = |login: Option<&str>| PrCommit {
        author: login.map(|l| Author { login: l.to_string() }),
        sha: "abc".to_string(),
    };
    let commits = vec![commit(Some("bob")), commit(Some("bob"))];
    assert!(contributors_from_commits(&commits).is_empty());
    let commits = vec![
        commit(Some("bob")),
        commit(Some("alice")),
        commit(Some("bob")),
        commit(Some("alice")),
    ];
    assert_eq!(contributors_from_commits(&commits), vec!["alice"]);
    let commits = vec![commit(None), commit(Some("bob"))];
    assert_eq!(contributors_from_commits(&commits), vec!["bob"]);
}
