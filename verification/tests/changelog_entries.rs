use release_plz_core::changelog::{
    commit_order, get_contributors, is_version_unchanged, CommitOrder, RemoteContributor,
    CHANGELOG_FILENAME,
};

fn contributor(name: Option<&str>, pr: i64) -> RemoteContributor {
    RemoteContributor {
        username: name.map(|n| n.to_string()),
        pr_title: None,
        pr_number: Some(pr),
        pr_labels: vec![],
        is_first_time: false,
    }
}

#[test]
fn contributors_are_unique_by_username() {
    let remotes = vec![
        Some(contributor(Some("a"), 1)),
        None,
        Some(contributor(Some("b"), 2)),
        Some(contributor(Some("a"), 3)),
        Some(contributor(None, 4)),
        Some(contributor(None, 5)),
    ];
    let out = get_contributors(remotes);
    let prs: Vec<i64> = out.iter().map(|c| c.pr_number.unwrap()).collect();
    assert_eq!(prs, [1, 2, 4]);
}

#[test]
fn commit_order_setting() {
    assert_eq!(commit_order(None), CommitOrder::Newest);
    assert_eq!(commit_order(Some("Oldest")), CommitOrder::Oldest);
    assert_eq!(commit_order(Some("NEWEST")), CommitOrder::Newest);
    assert_eq!(commit_order(Some("random")), CommitOrder::Invalid);
    assert_eq!(CHANGELOG_FILENAME, "CHANGELOG.md");
}

#[test]
fn version_unchanged() {
    assert!(is_version_unchanged(Some("1.0.0"), Some("1.0.0")));
    assert!(!is_version_unchanged(Some("1.0.0"), Some("1.0.1")));
    assert!(is_version_unchanged(None, None));
    assert!(!is_version_unchanged(None, Some("1.0.0")));
}
