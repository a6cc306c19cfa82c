use release_plz_core::changelog_filler::{check_remote_access, get_required_info, remote_pr_number};

#[test]
fn required_info_follows_the_template_body() {
    let info = get_required_info(Some("{{ commit.remote.username }} {{ commit.author.name }}"));
    assert!(info.is_remote_required());
    let info = get_required_info(Some("{{ commit.committer.email }}"));
    assert!(!info.is_remote_required());
    let info = get_required_info(Some("{{ commit.remote.pr_number }}"));
    assert!(info.is_remote_required());
    assert!(!get_required_info(None).is_remote_required());
}

#[test]
fn remote_information_needs_a_git_client() {
    let remote = get_required_info(Some("{{ commit.remote.pr_number }}"));
    assert_eq!(
        check_remote_access(&remote, false).unwrap_err(),
        "The changelog template requires information from the remote, but git token wasn't provided"
    );
    assert!(check_remote_access(&remote, true).is_ok());
    let local = get_required_info(Some("{{ commit.author.email }}"));
    assert!(check_remote_access(&local, false).is_ok());
}

#[test]
fn first_associated_pull_request_is_recorded() {
    assert_eq!(remote_pr_number(&[]), None);
    assert_eq!(remote_pr_number(&[12, 7]), Some(12));
    assert_eq!(remote_pr_number(&[u64::MAX]), None);
    assert_eq!(remote_pr_number(&[i64::MAX as u64]), Some(i64::MAX));
}
