use release_plz_core::pr::{pr_body, pr_title, release_branch_name, Pr, BRANCH_PREFIX};

fn updates(v: &[(&str, &str)]) -> Vec<(String, String)> {
    v.iter().map(|(n, v)| (n.to_string(), v.to_string())).collect()
}

#[test]
fn title_names_the_only_updated_package_of_a_workspace() {
    assert_eq!(pr_title(&updates(&[("foo", "1.2.0")]), true), "chore(foo): release v1.2.0");
    assert_eq!(pr_title(&updates(&[("foo", "1.2.0")]), false), "chore: release v1.2.0");
}

#[test]
fn title_has_the_version_only_when_all_versions_are_equal() {
    assert_eq!(
        pr_title(&updates(&[("a", "1.0.0"), ("b", "1.0.0")]), true),
        "chore: release v1.0.0"
    );
    assert_eq!(
        pr_title(&updates(&[("a", "1.0.0"), ("b", "2.0.0")]), true),
        "chore: release"
    );
}

#[test]
fn branch_name_has_no_colons() {
    assert_eq!(
        release_branch_name("2018-01-26T18:30:09Z"),
        "release-plz-2018-01-26T18-30-09Z"
    );
}

#[test]
fn body_wraps_changes() {
    assert_eq!(
        pr_body("\n summary", "changes"),
        "## 🤖 New release\n summary\n<details><summary><i><b>Changelog</b></i></summary><p>\n\nchanges\n</p></details>\n\n---\nThis PR was generated with [release-plz](https://github.com/MarcoIeni/release-plz/)."
    );
}

#[test]
fn new_pr_is_on_a_release_branch() {
    let pr = Pr::new("main", &updates(&[("foo", "0.1.1")]), "", "", false)
        .mark_as_draft(true)
        .with_labels(vec!["release".to_string()]);
    assert_eq!(pr.base_branch, "main");
    assert!(pr.branch.starts_with(BRANCH_PREFIX));
    assert!(!pr.branch.contains(':'));
    assert_eq!(pr.title, "chore: release v0.1.1");
    assert!(pr.draft);
    assert_eq!(pr.labels, vec!["release"]);
}
