use cargo_metadata::camino::Utf8PathBuf;
use release_plz_core::next_ver::{ReleaseMetadata, ReleaseMetadataBuilder};
use release_plz_core::package::{Package, Target};
use release_plz_core::project::{Project, ProjectError};

fn pkg(name: &str, kind: &str) -> Package {
    Package {
        name: name.to_string(),
        dependencies: vec![],
        version: "0.1.0".to_string(),
        features: vec![],
        publish: None,
        targets: vec![Target {
            name: name.to_string(),
            kind: vec![kind.to_string()],
        }],
    }
}

struct ReleaseMetadataBuilderStub {
    released: Vec<&'static str>,
    tag_name: Option<String>,
}

impl ReleaseMetadataBuilder for ReleaseMetadataBuilderStub {
    fn get_release_metadata(&self, package_name: &str) -> Option<ReleaseMetadata> {
        if self.released.contains(&package_name) {
            Some(ReleaseMetadata {
                tag_name_template: self.tag_name.clone(),
                release_name_template: None,
            })
        } else {
            None
        }
    }
}

fn project(
    packages: Vec<Package>,
    single: Option<&str>,
    overrides: &[&str],
    builder: &ReleaseMetadataBuilderStub,
) -> Result<Project, ProjectError> {
    let overrides: Vec<String> = overrides.iter().map(|s| s.to_string()).collect();
    Project::new(
        packages,
        Utf8PathBuf::from("/root"),
        Utf8PathBuf::from("/root"),
        single,
        &overrides,
        builder,
    )
}

#[test]
fn released_packages_are_kept() {
    let builder = ReleaseMetadataBuilderStub {
        released: vec!["a", "c"],
        tag_name: None,
    };
    let p = project(
        vec![pkg("a", "lib"), pkg("b", "lib"), pkg("c", "example")],
        None,
        &["a"],
        &builder,
    )
    .unwrap();
    let names: Vec<&str> = p.workspace_packages().iter().map(|p| p.name.as_str()).collect();
    assert_eq!(names, ["a", "c"]);
    let publishable: Vec<&str> = p.publishable_packages().iter().map(|p| p.name.as_str()).collect();
    assert_eq!(publishable, ["a"]);
    assert_eq!(p.git_tag_template("a"), "{{ package }}-v{{ version }}");
    assert_eq!(p.root().as_str(), "/root");
}

#[test]
fn single_package_is_picked() {
    let builder = ReleaseMetadataBuilderStub {
        released: vec!["a", "b"],
        tag_name: Some("t-{{ version }}".to_string()),
    };
    let p = project(vec![pkg("a", "lib"), pkg("b", "lib")], Some("b"), &[], &builder).unwrap();
    let names: Vec<&str> = p.workspace_packages().iter().map(|p| p.name.as_str()).collect();
    assert_eq!(names, ["b"]);
    assert_eq!(p.git_tag_template("a"), "t-{{ version }}");
    assert_eq!(p.release_name_template("a"), "{{ package }}-v{{ version }}");
    let err = project(vec![pkg("a", "lib"), pkg("b", "lib")], Some("z"), &[], &builder).unwrap_err();
    assert_eq!(err.to_string(), "package `z` not found. If it exists, is it public?");
}

#[test]
fn one_released_package_uses_short_templates() {
    let builder = ReleaseMetadataBuilderStub {
        released: vec!["a"],
        tag_name: None,
    };
    let p = project(vec![pkg("a", "lib"), pkg("b", "lib")], None, &[], &builder).unwrap();
    assert_eq!(p.git_tag_template("a"), "v{{ version }}");
    assert_eq!(p.release_name_template("zzz"), "v{{ version }}");
}

#[test]
fn no_released_package_is_an_error() {
    let builder = ReleaseMetadataBuilderStub {
        released: vec![],
        tag_name: None,
    };
    let err = project(vec![pkg("a", "lib"), pkg("b", "lib")], None, &[], &builder).unwrap_err();
    assert_eq!(
        err.to_string(),
        "no public packages found. Are there any public packages in your project? Analyzed packages: [\"a\", \"b\"]"
    );
}

#[test]
fn override_typos_come_first() {
    let builder = ReleaseMetadataBuilderStub {
        released: vec![],
        tag_name: None,
    };
    let err = project(vec![pkg("a", "lib")], None, &["typo_tesst"], &builder).unwrap_err();
    assert_eq!(
        err.to_string(),
        "The following overrides are not present in the workspace: `typo_tesst`. Check for typos"
    );
}

/// A builder that gives every package the same answer.
struct UniformBuilder {
    release: bool,
}

impl ReleaseMetadataBuilder for UniformBuilder {
    fn get_release_metadata(&self, _package_name: &str) -> Option<ReleaseMetadata> {
        if self.release {
            Some(ReleaseMetadata {
                tag_name_template: None,
                release_name_template: None,
            })
        } else {
            None
        }
    }
}

/// The workspace of the `typo-in-overrides` fixture: one library package, `typo_test`.
fn typo_fixture_project(overrides: &[&str], release: bool) -> Result<Project, ProjectError> {
    let overrides: Vec<String> = overrides.iter().map(|s| s.to_string()).collect();
    Project::new(
        vec![pkg("typo_test", "lib")],
        Utf8PathBuf::from("/fixtures/typo-in-overrides"),
        Utf8PathBuf::from("/fixtures/typo-in-overrides"),
        None,
        &overrides,
        &UniformBuilder { release },
    )
}

#[test]
fn test_empty_override() {
    let result = typo_fixture_project(&[], true);
    assert!(result.is_ok());
}

#[test]
fn test_successful_override() {
    let result = typo_fixture_project(&["typo_test"], true);
    assert!(result.is_ok());
}

#[test]
fn test_typo_in_crate_names() {
    let result = typo_fixture_project(&["typo_tesst"], true);
    assert!(result.is_err());
    assert_eq!(
        result.unwrap_err().to_string(),
        "The following overrides are not present in the workspace: `typo_tesst`. Check for typos"
    );
}

#[test]
fn project_new_no_release_will_error() {
    // the packages of the release-plz workspace
    let names = [
        "cargo_utils",
        "fake_package",
        "git_cmd",
        "test_logs",
        "next_version",
        "release-plz",
        "release_plz_core",
    ];
    let packages: Vec<Package> = names.iter().map(|n| pkg(n, "lib")).collect();
    let result = Project::new(
        packages,
        Utf8PathBuf::from("/workspace"),
        Utf8PathBuf::from("/workspace/crates/fake_package"),
        None,
        &vec![],
        &UniformBuilder { release: false },
    );
    assert!(result.is_err());
    assert_eq!(
        result.unwrap_err().to_string(),
        r#"no public packages found. Are there any public packages in your project? Analyzed packages: ["cargo_utils", "fake_package", "git_cmd", "test_logs", "next_version", "release-plz", "release_plz_core"]"#
    );
}
