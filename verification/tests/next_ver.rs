use release_plz_core::semver_check::SemverCheck;
use release_plz_core::next_ver::{dependencies_to_update, ResolvedDependency};
use release_plz_core::next_ver::{dependent_updates, update_plan, PackageDecisionInput, UpdateResult};
use release_plz_core::next_ver::{
    are_changed_files_in_package, check_tagged_version, checkout_failure, new_workspace_version,
    is_workspace_dependency, package_git_files, version_groups, CheckoutFailure, DependencyEntry,
};
use release_plz_core::diff::Commit;
use release_plz_core::next_ver::{
    changelog_commits, changelog_message, changelog_plan, dependencies_update_message, diff_step,
    first_line, is_commit_too_old, next_version_choice, update_decision, updated_packages_message,
    ChangelogPlan, DiffStep, PackageUpdateConfig, PackagesConfig, Publishable, UpdateConfig,
    UpdateDecision,
};
use release_plz_core::package::{Package, Target};

#[test]
fn first_line_follows_str_lines() {
    assert_eq!(first_line("feat: a\nbody"), Some("feat: a".to_string()));
    assert_eq!(first_line("fix: b\r\nbody"), Some("fix: b".to_string()));
    assert_eq!(first_line("only"), Some("only".to_string()));
    assert_eq!(first_line("\nsecond"), Some("".to_string()));
    assert_eq!(first_line(""), None);
}

#[test]
fn pr_numbers_become_links() {
    assert_eq!(
        changelog_message("fix: thing (#12)\nmore", false, Some("https://h/o/r/pull")),
        Some("fix: thing ([#12](https://h/o/r/pull/12))".to_string())
    );
    assert_eq!(
        changelog_message("feat: x\nbody #3", true, None),
        Some("feat: x\nbody #3".to_string())
    );
    assert_eq!(changelog_message("", false, None), None);
}

#[test]
fn changelog_commits_drop_empty_messages() {
    let commits = vec![
        Commit::new("1".to_string(), "".to_string()),
        Commit::new("2".to_string(), "update\ndetails".to_string()),
    ];
    let out = changelog_commits(&commits, &vec![false, false], None);
    assert_eq!(out.len(), 1);
    assert_eq!(out[0].id, "2");
    assert_eq!(out[0].message, "update");
}

#[test]
fn dependency_update_messages() {
    assert_eq!(
        dependencies_update_message(true, true),
        Some("chore: update Cargo.toml dependencies".to_string())
    );
    assert_eq!(
        dependencies_update_message(false, true),
        Some("chore: update Cargo.lock dependencies".to_string())
    );
    assert_eq!(dependencies_update_message(false, false), None);
    assert_eq!(
        updated_packages_message(&vec!["a".to_string(), "b".to_string()]),
        "chore: updated the following local packages: a, b"
    );
}

#[test]
fn changelog_is_kept_when_it_has_the_next_version() {
    let old = "## [1.1.0] - 1970-01-01\n\n### fix bugs\n- my awesomefix\n";
    assert!(matches!(changelog_plan(true, "1.1.0", "1.1.0", Some(old)), ChangelogPlan::KeepOld));
    match changelog_plan(true, "1.2.0", "1.1.0", Some(old)) {
        ChangelogPlan::Build { previous_version } => assert_eq!(previous_version, Some("1.1.0".to_string())),
        ChangelogPlan::KeepOld => panic!("expected a new entry"),
    }
    match changelog_plan(true, "0.2.0", "0.1.0", None) {
        ChangelogPlan::Build { previous_version } => assert_eq!(previous_version, Some("0.1.0".to_string())),
        ChangelogPlan::KeepOld => panic!("expected a new entry"),
    }
    assert!(matches!(
        changelog_plan(false, "1.1.0", "1.1.0", Some(old)),
        ChangelogPlan::Build { previous_version: None }
    ));
}

#[test]
fn diff_steps() {
    assert_eq!(diff_step(true, true, false, false, false), DiffStep::Stop { check_dependencies: true });
    assert_eq!(diff_step(true, false, true, false, true), DiffStep::Stop { check_dependencies: false });
    assert_eq!(diff_step(true, false, false, true, false), DiffStep::StopVersionUnpublished);
    assert_eq!(diff_step(true, false, false, false, false), DiffStep::CheckChangedFiles);
    assert_eq!(diff_step(false, true, true, true, true), DiffStep::CheckChangedFiles);
    assert!(is_commit_too_old(Some(true), None));
    assert!(is_commit_too_old(Some(false), Some(true)));
    assert!(!is_commit_too_old(None, Some(false)));
}

#[test]
fn update_decisions() {
    assert_eq!(update_decision(Some(false), "1.1.0", "1.0.0", true, true), UpdateDecision::SkipNoReleaseCommit);
    assert_eq!(update_decision(None, "1.1.0", "1.0.0", true, true), UpdateDecision::Update);
    assert_eq!(update_decision(Some(true), "1.0.0", "1.0.0", false, true), UpdateDecision::Update);
    assert_eq!(update_decision(None, "1.0.0", "1.0.0", true, true), UpdateDecision::CheckDependencies);
    assert_eq!(update_decision(None, "1.0.0", "1.0.0", true, false), UpdateDecision::Keep);
}

#[test]
fn next_version_choices() {
    let groups = vec![("g".to_string(), "2.0.0".to_string())];
    assert_eq!(next_version_choice(Some("3.0.0"), true, Some("g"), &groups, "1.0.1"), Ok("3.0.0".to_string()));
    assert_eq!(next_version_choice(Some("3.0.0"), false, Some("g"), &groups, "1.0.1"), Ok("2.0.0".to_string()));
    assert_eq!(next_version_choice(None, true, None, &groups, "1.0.1"), Ok("1.0.1".to_string()));
    assert_eq!(
        next_version_choice(None, false, Some("h"), &groups, "1.0.1"),
        Err("failed to retrieve version for version group h".to_string())
    );
}

#[test]
fn packages_config_overrides_the_default() {
    let mut config = PackagesConfig::new();
    assert!(config.get("a").generic.semver_check);
    config.set_default(UpdateConfig::default().with_semver_check(false));
    let own = PackageUpdateConfig {
        generic: UpdateConfig::default().with_git_only(true),
        changelog_include: vec![],
        version_group: None,
    };
    config.set("a".to_string(), own);
    assert!(config.get("a").git_only());
    assert!(!config.get("b").semver_check());
    let replaced = PackageUpdateConfig {
        generic: UpdateConfig::default().with_changelog_update(false),
        changelog_include: vec![],
        version_group: None,
    };
    config.set("a".to_string(), replaced);
    assert!(!config.get("a").git_only());
    assert!(!config.get("a").should_update_changelog());
    let tag = UpdateConfig { tag_name_template: Some("t-{{ version }}".to_string()), ..UpdateConfig::default() };
    config.set("c".to_string(), PackageUpdateConfig { generic: tag, changelog_include: vec![], version_group: None });
    let m = config.get_release_metadata("c").unwrap();
    assert_eq!(m.tag_name_template, Some("t-{{ version }}".to_string()));
    assert!(m.release_name_template.is_none());
    let no_release = UpdateConfig { release: false, ..UpdateConfig::default() };
    config.set("d".to_string(), PackageUpdateConfig { generic: no_release, changelog_include: vec![], version_group: None });
    assert!(config.get_release_metadata("d").is_none());
}

fn package(publish: Option<Vec<String>>, kinds: &[&[&str]]) -> Package {
    Package {
        name: "p".to_string(),
        dependencies: vec![],
        version: "0.1.0".to_string(),
        features: vec![],
        publish,
        targets: kinds
            .iter()
            .map(|k| Target {
                name: "t".to_string(),
                kind: k.iter().map(|s| s.to_string()).collect(),
            })
            .collect(),
    }
}

#[test]
fn publishable_packages() {
    assert!(package(None, &[&["lib"]]).is_publishable());
    assert!(!package(None, &[&["example"], &["example"]]).is_publishable());
    assert!(!package(Some(vec![]), &[&["lib"]]).is_publishable());
    assert!(package(Some(vec!["my-reg".to_string()]), &[&["example"]]).is_publishable());
}

#[test]
fn overwritten_local_changes_mean_a_dirty_directory() {
    assert_eq!(
        checkout_failure("error: Your local changes to the following files would be overwritten by checkout:"),
        CheckoutFailure::DirtyWorkingDirectory
    );
    assert_eq!(checkout_failure("pathspec 'src' did not match"), CheckoutFailure::NoCommits);
}

#[test]
fn existing_tag_requires_the_package_in_the_registry_at_that_version() {
    assert!(check_tagged_version("a", "0.1.0", "v0.1.0", false, None).is_ok());
    assert!(check_tagged_version("a", "0.1.0", "v0.1.0", true, Some("0.1.0")).is_ok());
    assert_eq!(
        check_tagged_version("a", "0.1.0", "v0.1.0", true, None).unwrap_err(),
        "package `a` not found in the registry, but the git tag v0.1.0 exists. Consider running `cargo publish` manually to publish this package."
    );
    assert_eq!(
        check_tagged_version("a", "0.2.0", "v0.2.0", true, Some("0.1.0")).unwrap_err(),
        "package `a` has a different version (0.2.0) with respect to the registry package (0.1.0), but the git tag v0.2.0 exists. Consider running `cargo publish` manually to publish the new version of this package."
    );
}

#[test]
fn version_group_takes_the_highest_next_version() {
    let entries = vec![
        (Some("g".to_string()), "1.2.0".to_string()),
        (None, "9.0.0".to_string()),
        (Some("h".to_string()), "0.1.0".to_string()),
        (Some("g".to_string()), "1.10.0".to_string()),
        (Some("g".to_string()), "1.3.0".to_string()),
        (Some("h".to_string()), "0.1.0-rc.1".to_string()),
    ];
    let groups = version_groups(&entries).unwrap();
    assert_eq!(
        groups,
        vec![
            ("g".to_string(), "1.10.0".to_string()),
            ("h".to_string(), "0.1.0".to_string()),
        ]
    );
    assert_eq!(
        next_version_choice(None, false, Some("g"), &groups, "1.2.0"),
        Ok("1.10.0".to_string())
    );
}

#[test]
fn version_group_with_an_invalid_version_fails() {
    let entries = vec![
        (Some("g".to_string()), "1.2.0".to_string()),
        (Some("g".to_string()), "not a version".to_string()),
    ];
    assert!(version_groups(&entries).is_none());
    // a version that is never compared is not checked
    let single = vec![(Some("g".to_string()), "x".to_string())];
    assert_eq!(version_groups(&single), Some(vec![("g".to_string(), "x".to_string())]));
}

#[test]
fn workspace_version_is_the_highest_next_version_not_below_it() {
    let nexts = vec!["1.1.0".to_string(), "0.9.0".to_string(), "1.2.0".to_string(), "1.0.1".to_string()];
    assert_eq!(new_workspace_version(Some("1.0.0"), &nexts), Some(Some("1.2.0".to_string())));
    assert_eq!(new_workspace_version(None, &nexts), Some(None));
    assert_eq!(new_workspace_version(Some("2.0.0"), &nexts), Some(None));
    assert_eq!(new_workspace_version(Some("1.0.0"), &vec![]), Some(None));
    assert_eq!(new_workspace_version(Some("1.0.0"), &vec!["1.0.0".to_string()]), Some(Some("1.0.0".to_string())));
    assert_eq!(new_workspace_version(Some("1.0.0"), &vec!["bad".to_string()]), None);
}

#[test]
fn commit_changes_the_package_when_it_touches_one_of_its_files() {
    let package = vec!["crates/a/src/lib.rs".to_string(), "crates/a/Cargo.toml".to_string()];
    let touching = vec!["README.md".to_string(), "crates/a/Cargo.toml".to_string()];
    let elsewhere = vec!["crates/b/src/lib.rs".to_string()];
    assert!(are_changed_files_in_package(Some(&package), Some(&touching)));
    assert!(!are_changed_files_in_package(Some(&package), Some(&elsewhere)));
    assert!(are_changed_files_in_package(None, Some(&elsewhere)));
    assert!(are_changed_files_in_package(Some(&package), None));
}

#[test]
fn package_files_are_named_from_the_repository_root() {
    let files = vec![
        "Cargo.toml".to_string(),
        "Cargo.toml.orig".to_string(),
        ".cargo_vcs_info.json".to_string(),
        "src/lib.rs".to_string(),
    ];
    assert_eq!(
        package_git_files(&files, "crates/a"),
        vec!["crates/a/Cargo.toml".to_string(), "crates/a/src/lib.rs".to_string()]
    );
    assert_eq!(
        package_git_files(&files, ""),
        vec!["Cargo.toml".to_string(), "src/lib.rs".to_string()]
    );
    let odd = vec!["/abs/x.rs".to_string(), "b.rs".to_string()];
    let expected: Vec<String> = odd
        .iter()
        .map(|f| std::path::Path::new("crates/a/").join(f).to_string_lossy().into_owned())
        .collect();
    assert_eq!(package_git_files(&odd, "crates/a/"), expected);
}

#[test]
fn workspace_dependency_has_no_version_or_path_of_its_own() {
    let d = |workspace, has_version, has_path| DependencyEntry {
        workspace,
        has_version,
        has_path,
    };
    assert!(is_workspace_dependency(&d(Some(true), false, false)));
    assert!(!is_workspace_dependency(&d(Some(true), true, false)));
    assert!(!is_workspace_dependency(&d(Some(true), false, true)));
    assert!(!is_workspace_dependency(&d(Some(false), false, false)));
    assert!(!is_workspace_dependency(&d(None, false, false)));
}

fn decision_input(m: Option<bool>, next: &str, cur: &str, exists: bool, published: bool) -> PackageDecisionInput {
    PackageDecisionInput {
        release_commits_match: m,
        next_version: next.to_string(),
        current_version: cur.to_string(),
        registry_package_exists: exists,
        is_version_published: published,
    }
}

#[test]
fn update_list_has_own_updates_then_dependents() {
    let inputs = vec![
        decision_input(None, "0.2.0", "0.1.0", true, true),
        decision_input(None, "0.1.0", "0.1.0", true, true),
        decision_input(Some(false), "0.2.0", "0.1.0", true, true),
        decision_input(None, "0.1.0", "0.1.0", false, false),
        decision_input(None, "0.1.0", "0.1.0", true, true),
        decision_input(None, "0.1.0", "0.1.0", true, false),
    ];
    let plan = update_plan(&inputs);
    assert_eq!(plan.updated, vec![0, 3]);
    assert_eq!(plan.check_dependencies, vec![1, 4]);
    let deps = vec![vec!["a".to_string(), "d".to_string()], vec![]];
    let dependents = dependent_updates(&plan.check_dependencies, &deps);
    assert_eq!(dependents.len(), 1);
    assert_eq!(dependents[0].package, 1);
    assert_eq!(dependents[0].message, "chore: updated the following local packages: a, d");
}

#[test]
fn changelog_is_kept_only_when_the_package_updates_it() {
    let r = UpdateResult::new("1.0.0".to_string(), SemverCheck::Skipped, false, "# Changelog".to_string());
    assert_eq!(r.semver_check, SemverCheck::Skipped);
    assert!(r.changelog.is_none());
    assert!(r.last_changes().unwrap().is_none());
    let changelog = "# Changelog\n\n## [1.0.0] - 2024-01-01\n\n- fix\n";
    let r = UpdateResult::new(
        "1.0.0".to_string(),
        SemverCheck::Incompatible("removed fn".to_string()),
        true,
        changelog.to_string(),
    );
    assert_eq!(r.semver_check, SemverCheck::Incompatible("removed fn".to_string()));
    assert_eq!(r.changelog.as_deref(), Some(changelog));
    let last = r.last_changes().unwrap().unwrap();
    assert!(last.title().contains("1.0.0"));
    assert_eq!(last.notes(), "- fix");
}

#[test]
fn dependencies_follow_updated_packages_they_refer_to() {
    let paths = vec!["/w/a".to_string(), "/w/b".to_string()];
    let entries = vec![
        ResolvedDependency { has_version: true, path: Some("/w/a".to_string()) },
        ResolvedDependency { has_version: false, path: Some("/w/b".to_string()) },
        ResolvedDependency { has_version: true, path: Some("/w/b".to_string()) },
        ResolvedDependency { has_version: true, path: None },
    ];
    let upgrades = vec![vec![true, true, true, true], vec![true, true, false, true]];
    assert_eq!(dependencies_to_update(&paths, &entries, &upgrades), vec![0]);
    let upgrades = vec![vec![true, true, true, true], vec![true, true, true, true]];
    assert_eq!(dependencies_to_update(&paths, &entries, &upgrades), vec![0, 1]);
}
