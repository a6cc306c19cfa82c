use cargo_metadata::MetadataCommand;
use release_plz_core::command::release::{
    GitReleaseConfig, GitTagConfig, PackageReleaseConfig, PublishConfig, ReleaseConfig,
    ReleaseRequest, ReleaseType,
};
use release_plz_core::version::Version;

fn metadata() -> cargo_metadata::Metadata {
    MetadataCommand::parse(
        r#"{"packages":[],"workspace_members":[],"workspace_default_members":[],"resolve":null,"workspace_root":"/w","target_directory":"/w/target","version":1}"#,
    )
    .unwrap()
}

#[test]
fn default_request_publishes_tags_and_releases() {
    let req = ReleaseRequest::new(metadata());
    let steps = req.release_steps("a");
    assert!(steps.publish && steps.wait_until_published && steps.tag && steps.git_release);
    assert!(req.git_release_backend().is_err());
    assert_eq!(
        req.cargo_publish_args("a", "/w/a/Cargo.toml"),
        vec!["publish", "--color", "always", "--manifest-path", "/w/a/Cargo.toml"]
    );
}

#[test]
fn dry_run_only_publishes() {
    let req = ReleaseRequest::new(metadata()).with_dry_run(true);
    let steps = req.release_steps("a");
    assert!(steps.publish);
    assert!(!steps.wait_until_published && !steps.tag && !steps.git_release);
}

#[test]
fn publish_args_follow_the_configuration() {
    let config = ReleaseConfig::default()
        .with_allow_dirty(true)
        .with_no_verify(true)
        .with_features(vec!["x".to_string(), "y".to_string()]);
    let req = ReleaseRequest::new(metadata())
        .with_registry("my-reg".to_string())
        .with_token("secret".to_string())
        .with_dry_run(true)
        .with_package_config("a".to_string(), config.into());
    assert_eq!(
        req.cargo_publish_args("a", "m"),
        vec![
            "publish", "--color", "always", "--manifest-path", "m", "--registry", "my-reg",
            "--token", "secret", "--dry-run", "--allow-dirty", "--no-verify", "--features", "x,y"
        ]
    );
    assert_eq!(
        req.cargo_publish_args("b", "m"),
        vec![
            "publish", "--color", "always", "--manifest-path", "m", "--registry", "my-reg",
            "--token", "secret", "--dry-run"
        ]
    );
    assert!(req.allow_dirty("a") && req.skip_build_check("a"));
    assert_eq!(req.features("a"), vec!["x", "y"]);
    assert!(!req.allow_dirty("b"));
}

#[test]
fn registries_prefer_the_request() {
    let req = ReleaseRequest::new(metadata());
    assert_eq!(req.registries(&Some(vec!["r1".to_string()])), vec!["r1"]);
    assert!(req.registries(&None).is_empty());
    let req = req.with_registry("mine".to_string());
    assert_eq!(req.registries(&Some(vec!["r1".to_string()])), vec!["mine"]);
}

#[test]
fn release_metadata_and_git_release_info() {
    let config = ReleaseConfig::default()
        .with_git_tag(GitTagConfig::enabled(true).set_name_template(Some("v{{ version }}".to_string())))
        .with_git_release(
            GitReleaseConfig::enabled(true)
                .set_draft(true)
                .set_release_type(ReleaseType::Auto)
                .set_name_template(Some("R {{ version }}".to_string())),
        );
    let off = ReleaseConfig::default().with_release(false).with_publish(PublishConfig::enabled(false));
    let req = ReleaseRequest::new(metadata())
        .with_default_package_config(off)
        .with_package_config("a".to_string(), PackageReleaseConfig::from(config));
    let m = req.get_release_metadata("a").unwrap();
    assert_eq!(m.tag_name_template, Some("v{{ version }}".to_string()));
    assert_eq!(m.release_name_template, Some("R {{ version }}".to_string()));
    assert!(req.get_release_metadata("b").is_none());
    assert!(!req.release_steps("b").publish);
    let info = req.git_release_info(
        "a",
        &Version::parse("2.0.0-beta.1").unwrap(),
        "v2.0.0-beta.1".to_string(),
        "R 2.0.0-beta.1".to_string(),
        "body".to_string(),
    );
    assert!(info.draft && info.pre_release);
    assert_eq!(info.git_tag, "v2.0.0-beta.1");
}

#[test]
fn default_publish_timeout_is_thirty_minutes() {
    let req = ReleaseRequest::new(metadata());
    assert_eq!(req.publish_timeout(), std::time::Duration::from_secs(30 * 60));
    let req = req.with_publish_timeout(std::time::Duration::from_secs(5));
    assert_eq!(req.publish_timeout(), std::time::Duration::from_secs(5));
}
