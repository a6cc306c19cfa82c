use release_plz_core::repo_versions::latest_version_tag;

fn tags(v: &[&str]) -> Vec<String> {
    v.iter().map(|s| s.to_string()).collect()
}

#[test]
fn first_version_tag_is_the_latest() {
    assert_eq!(
        latest_version_tag(&tags(&["nightly", "tokio-v1.2.3", "v1.0.0"])),
        Some("tokio-v1.2.3".to_string())
    );
    assert_eq!(latest_version_tag(&tags(&["v0.2.3"])), Some("v0.2.3".to_string()));
}

#[test]
fn no_version_tag_gives_none() {
    assert_eq!(latest_version_tag(&tags(&["release", "1.2.3", "v1.2"])), None);
    assert_eq!(latest_version_tag(&tags(&[])), None);
}
