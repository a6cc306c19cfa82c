use release_plz_core::command::release::{
    publish_succeeded, release_body, verify_ci_cargo_registry_token, GitReleaseConfig,
    GitTagConfig, PackageReleaseConfig, PublishConfig, ReleaseConfig, ReleaseType,
};
use release_plz_core::version::Version;

#[test]
fn git_release_config_pre_release_default_works() {
    let config = GitReleaseConfig::default();
    let version = Version::parse("1.0.0").unwrap();
    let rc_version = Version::parse("1.0.0-rc1").unwrap();

    assert!(!config.is_pre_release(&version));
    assert!(!config.is_pre_release(&rc_version));
}

#[test]
fn git_release_config_pre_release_auto_works() {
    let mut config = GitReleaseConfig::default();
    config = config.set_release_type(ReleaseType::Auto);
    let version = Version::parse("1.0.0").unwrap();
    let rc_version = Version::parse("1.0.0-rc1").unwrap();

    assert!(!config.is_pre_release(&version));
    assert!(config.is_pre_release(&rc_version));
}

#[test]
fn git_release_config_pre_release_pre_works() {
    let mut config = GitReleaseConfig::default();
    config = config.set_release_type(ReleaseType::Pre);
    let version = Version::parse("1.0.0").unwrap();
    let rc_version = Version::parse("1.0.0-rc1").unwrap();

    assert!(config.is_pre_release(&version));
    assert!(config.is_pre_release(&rc_version));
}

#[test]
fn version_parts_are_parsed() {
    let v = Version::parse("1.2.3-rc.1+build5").unwrap();
    assert_eq!((v.major, v.minor, v.patch), (1, 2, 3));
    assert_eq!(v.pre, "rc.1");
    assert_eq!(v.build, "build5");
    assert!(v.is_prerelease());
    assert!(Version::parse("not a version").is_err());
}

#[test]
fn default_release_config_enables_everything() {
    let config = ReleaseConfig::default();
    assert!(config.publish().is_enabled());
    assert!(config.git_release().is_enabled());
    assert!(PublishConfig::default().is_enabled());
    assert!(!PublishConfig::enabled(false).is_enabled());
    assert!(GitTagConfig::default().is_enabled());
    assert!(!GitTagConfig::enabled(false).set_name_template(Some("t".to_string())).is_enabled());
}

#[test]
fn release_config_builders_change_one_setting() {
    let config = ReleaseConfig::default()
        .with_publish(PublishConfig::enabled(false))
        .with_git_release(GitReleaseConfig::enabled(false).set_draft(true));
    assert!(!config.publish().is_enabled());
    assert!(!config.git_release().is_enabled());
    let package_config: PackageReleaseConfig = config.clone().into();
    assert!(package_config.changelog_path.is_none());
    assert_eq!(package_config.generic, config);
}

#[test]
fn publish_output_is_checked() {
    assert!(publish_succeeded(true, "   Uploading foo v0.1.0"));
    assert!(!publish_succeeded(false, "   Uploading foo v0.1.0"));
    assert!(!publish_succeeded(true, "Packaging foo"));
    assert!(!publish_succeeded(true, "Uploading foo\nerror: rejected"));
}

#[test]
fn empty_registry_token_in_github_actions_is_refused() {
    let err = verify_ci_cargo_registry_token(true, Some("")).unwrap_err();
    assert!(err.starts_with("CARGO_REGISTRY_TOKEN environment variable is set to empty string."));
    assert!(verify_ci_cargo_registry_token(true, Some("token")).is_ok());
    assert!(verify_ci_cargo_registry_token(true, None).is_ok());
    assert!(verify_ci_cargo_registry_token(false, Some("")).is_ok());
}

#[test]
fn release_body_falls_back_to_empty() {
    assert_eq!(release_body(Ok(Some("notes".to_string()))), "notes");
    assert_eq!(release_body(Ok(None)), "");
    assert_eq!(release_body(Err("bad".to_string())), "");
}
