use release_plz_core::diff::{Commit, Diff};
use release_plz_core::semver_check::SemverCheck;

fn create_diff() -> Diff {
    let mut diff = Diff::new(false);
    diff.add_commits(&vec![Commit::new(
        "1e6903d".to_string(),
        "feature release".to_string(),
    )]);
    diff
}

#[test]
fn test_is_commit_message_matched() {
    let diff = create_diff();
    let present = diff.any_commit_matches(r"^feat").unwrap();
    assert!(present);
}

#[test]
fn test_is_commit_message_not_matched() {
    let diff = create_diff();
    let present = diff.any_commit_matches(r"mismatch").unwrap();
    assert!(!present);
}

#[test]
fn commits_are_added_once() {
    let mut diff = Diff::new(true);
    assert!(!diff.should_update_version());
    let a = Commit::new("1".to_string(), "fix: a".to_string());
    let b = Commit::new("2".to_string(), "feat: b".to_string());
    diff.add_commits(&[a.clone(), b.clone(), a.clone()]);
    diff.add_commits(&[b.clone()]);
    let ids: Vec<&str> = diff.commits.iter().map(|c| c.id.as_str()).collect();
    assert_eq!(ids, ["1", "2"]);
    assert!(diff.should_update_version());
    diff.set_version_unpublished();
    assert!(!diff.is_version_published);
}

#[test]
fn invalid_pattern_is_an_error() {
    let diff = create_diff();
    assert!(diff.any_commit_matches("(").is_err());
    // With no commits there is nothing to match, whatever the pattern.
    assert_eq!(Diff::new(true).any_commit_matches("(").unwrap(), false);
}

#[test]
fn semver_check_is_recorded_in_the_diff() {
    let mut diff = create_diff();
    assert_eq!(diff.semver_check, SemverCheck::Skipped);
    diff.set_semver_check(SemverCheck::Compatible);
    assert_eq!(diff.semver_check, SemverCheck::Compatible);
    assert_eq!(diff.commits.len(), 1);
}
