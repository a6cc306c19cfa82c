use release_plz_core::git::backend::{
    categorize_labels, filter_release_prs, is_last_page, Author, Commit, GitPr, Label, Remote,
};
use release_plz_core::git::github_graphql::{
    get_graphql_endpoint, is_changed_file_line, is_removed_file_line, mutation,
};

fn pr(branch: &str, number: u64) -> GitPr {
    GitPr {
        user: Author {
            login: "u".to_string(),
        },
        number,
        html_url: format!("https://h/o/r/pull/{number}"),
        head: Commit {
            ref_field: branch.to_string(),
            sha: "s".to_string(),
        },
        title: "t".to_string(),
        body: None,
        labels: vec![],
    }
}

#[test]
fn release_prs_are_filtered_by_prefix() {
    let prs = vec![pr("release-plz-1", 1), pr("feature", 2), pr("release-plz-2", 3)];
    let numbers: Vec<u64> = filter_release_prs(prs, "release-plz-").iter().map(|p| p.number).collect();
    assert_eq!(numbers, [1, 3]);
    assert!(is_last_page(29, 30));
    assert!(!is_last_page(30, 30));
}

#[test]
fn labels_are_categorized() {
    let existing = vec![
        Label { name: "a".to_string(), id: Some(1) },
        Label { name: "b".to_string(), id: None },
        Label { name: "a".to_string(), id: Some(7) },
    ];
    let (create, ids) = categorize_labels(&existing, vec!["a".to_string(), "new".to_string()]).unwrap();
    assert_eq!(create, vec!["new"]);
    assert_eq!(ids, vec![7]);
    let err = categorize_labels(&existing, vec!["x".to_string(), "b".to_string()]).unwrap_err();
    assert_eq!(err, "failed to extract id from label b");
}

#[test]
fn graphql_helpers() {
    assert_eq!(
        mutation(),
        "mutation($input:CreateCommitOnBranchInput!){createCommitOnBranch(input:$input){commit{author{name,email}}}}"
    );
    assert!(is_changed_file_line("M src/lib.rs"));
    assert!(!is_changed_file_line("T link"));
    assert!(!is_changed_file_line("D gone"));
    assert!(is_removed_file_line("D gone"));
    assert!(!is_removed_file_line("M here"));
    let remote = Remote {
        owner: "o".to_string(),
        repo: "r".to_string(),
        token: "t".to_string(),
        base_url: "https://api.github.com/".to_string(),
    };
    assert_eq!(get_graphql_endpoint(&remote).unwrap(), "https://api.github.com/graphql");
}
