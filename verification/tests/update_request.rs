use cargo_metadata::camino::Utf8PathBuf;
use cargo_metadata::MetadataCommand;
use release_plz_core::command::release_pr::ReleasePrRequest;
use release_plz_core::command::set_version::{SetVersionRequest, VersionChange};
use release_plz_core::next_ver::{PackageUpdateConfig, ReleaseMetadataBuilder, UpdateConfig};
use release_plz_core::update_request::UpdateRequest;
use release_plz_core::version::Version;

fn metadata() -> cargo_metadata::Metadata {
    MetadataCommand::parse(
        r#"{"packages":[],"workspace_members":[],"workspace_default_members":[],"resolve":null,"workspace_root":"/w","target_directory":"/w/target","version":1}"#,
    )
    .unwrap()
}

fn request() -> UpdateRequest {
    UpdateRequest::new(metadata(), Utf8PathBuf::from("/w/Cargo.toml"))
}

#[test]
fn new_update_request_has_defaults() {
    let r = request();
    assert_eq!(r.local_manifest().as_str(), "/w/Cargo.toml");
    assert!(r.registry_manifest().is_none());
    assert!(!r.should_update_dependencies());
    assert!(!r.allow_dirty());
    assert!(r.single_package().is_none());
    assert!(r.registry().is_none());
    assert!(r.repo_url().is_none());
    assert!(r.release_commits().is_none());
    assert_eq!(r.get_package_config("a").generic, UpdateConfig::default());
    assert_eq!(r.cargo_metadata().workspace_root.as_str(), "/w");
}

#[test]
fn update_request_builders_set_their_field() {
    let r = request()
        .with_registry("my-registry".to_string())
        .with_single_package("a".to_string())
        .with_dependencies_update(true)
        .with_allow_dirty(true)
        .with_registry_manifest_path(Utf8PathBuf::from("/r/Cargo.toml"))
        .set_local_manifest(Utf8PathBuf::from("/x/Cargo.toml"));
    assert_eq!(r.registry(), Some("my-registry"));
    assert_eq!(r.single_package(), Some("a"));
    assert!(r.should_update_dependencies());
    assert!(r.allow_dirty());
    assert_eq!(r.registry_manifest().unwrap().as_str(), "/r/Cargo.toml");
    assert_eq!(r.local_manifest().as_str(), "/x/Cargo.toml");
}

#[test]
fn invalid_release_commits_pattern_is_refused() {
    let err = request().with_release_commits("(").err().unwrap();
    assert_eq!(err, "invalid release_commits regex pattern");
    let r = request().with_release_commits("^feat:").unwrap();
    assert_eq!(r.release_commits(), Some("^feat:"));
}

#[test]
fn package_config_overrides_the_default() {
    let own = PackageUpdateConfig {
        generic: UpdateConfig::default().with_semver_check(false),
        changelog_include: vec!["b".to_string()],
        version_group: None,
    };
    let r = request()
        .with_package_config("a".to_string(), own.clone())
        .with_default_package_config(UpdateConfig::default().with_git_only(true));
    assert_eq!(r.get_package_config("a"), &own);
    assert!(r.get_package_config("b").generic.git_only);
}

#[test]
fn unreleased_package_has_no_release_metadata() {
    let mut no_release = UpdateConfig::default();
    no_release.release = false;
    let mut tagged = UpdateConfig::default();
    tagged.tag_name_template = Some("v{{ version }}".to_string());
    let r = request()
        .with_default_package_config(tagged)
        .with_package_config(
            "off".to_string(),
            PackageUpdateConfig {
                generic: no_release,
                changelog_include: vec![],
                version_group: None,
            },
        );
    assert!(r.get_release_metadata("off").is_none());
    let m = r.get_release_metadata("on").unwrap();
    assert_eq!(m.tag_name_template.as_deref(), Some("v{{ version }}"));
    assert!(m.release_name_template.is_none());
}

#[test]
fn release_pr_request_defaults_and_builders() {
    let r = ReleasePrRequest::new(request());
    assert_eq!(r.branch_prefix(), "release-plz-");
    assert!(!r.is_draft());
    assert!(r.labels().is_empty());
    assert!(r.pr_name_template().is_none());
    let r = r
        .with_pr_name_template(Some("chore: release".to_string()))
        .with_pr_body_template(Some("body".to_string()))
        .with_labels(vec!["release".to_string()])
        .mark_as_draft(true)
        .with_branch_prefix(None);
    assert_eq!(r.branch_prefix(), "release-plz-");
    assert_eq!(r.pr_name_template(), Some("chore: release"));
    assert_eq!(r.pr_body_template(), Some("body"));
    assert_eq!(r.labels(), &vec!["release".to_string()]);
    assert!(r.is_draft());
    let r = r.with_branch_prefix(Some("rel/".to_string()));
    assert_eq!(r.branch_prefix(), "rel/");
    assert_eq!(r.update_request.local_manifest().as_str(), "/w/Cargo.toml");
}

fn version(text: &str) -> Version {
    Version::parse(text).unwrap()
}

#[test]
fn changelog_path_is_set_only_for_packages_with_a_change() {
    let mut r = SetVersionRequest::new(
        vec![
            ("a".to_string(), VersionChange::new(version("1.0.0"))),
            ("b".to_string(), VersionChange::new(version("2.0.0"))),
            ("a".to_string(), VersionChange::new(version("1.1.0"))),
        ],
        metadata(),
        Utf8PathBuf::from("/w/Cargo.toml"),
    );
    r.set_changelog_path("a", Utf8PathBuf::from("docs/CHANGELOG.md"));
    r.set_changelog_path("c", Utf8PathBuf::from("c/CHANGELOG.md"));
    let a = r.version_change("a").unwrap();
    assert_eq!(a.changelog_path.as_ref().unwrap().as_str(), "docs/CHANGELOG.md");
    assert!(r.version_change("b").unwrap().changelog_path.is_none());
    assert!(r.version_change("c").is_none());
    assert_eq!(r.manifest().as_str(), "/w/Cargo.toml");
}

#[test]
fn later_version_change_of_a_package_wins() {
    let r = SetVersionRequest::new(
        vec![
            ("a".to_string(), VersionChange::new(version("1.0.0"))),
            ("a".to_string(), VersionChange::new(version("1.1.0-rc.1"))),
        ],
        metadata(),
        Utf8PathBuf::from("/w/Cargo.toml"),
    );
    let v = r.version_change("a").unwrap().version();
    assert_eq!((v.major, v.minor, v.patch, v.pre.as_str()), (1, 1, 0, "rc.1"));
}
