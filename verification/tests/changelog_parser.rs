use release_plz_core::changelog_parser::{
    last_changes_from_str, last_release_from_str, last_version_from_str, parse_header,
};

fn last_changes_from_str_test(changelog: &str) -> String {
    last_changes_from_str(changelog).unwrap().unwrap()
}

#[test]
fn changelog_header_is_parsed() {
    let changelog = "\
# Changelog

My custom changelog header

## [Unreleased]
";
    let header = parse_header(changelog).unwrap();
    let expected_header = "\
# Changelog

My custom changelog header

## [Unreleased]
";
    assert_eq!(header, expected_header);
}

#[test]
fn changelog_header_with_crlf_parsed_will_contain_crlf() {
    let changelog = "# Changelog\r\n\r\nMy custom changelog header\r\n\r\n## [Unreleased]\r\n";
    let header = parse_header(changelog).unwrap_or("".to_string());
    assert_eq!(header, changelog);
}

#[test]
fn changelog_header_without_unreleased_is_parsed() {
    let changelog = "\
# Changelog

My custom changelog header

## [0.2.5] - 2022-12-16

";
    let header = parse_header(changelog).unwrap();
    let expected_header = "\
# Changelog

My custom changelog header
";
    assert_eq!(header, expected_header);
}

#[test]
fn changelog_header_without_unreleased_and_two_previous_versions_is_parsed() {
    let changelog = "\
# Changelog

My custom changelog header

## [0.2.5] - 2022-12-16

### Added

- Incredible feature

## [0.2.5] - 2022-12-16

### Fixed

- Incredible bug
";
    let header = parse_header(changelog).unwrap();
    let expected_header = "\
# Changelog

My custom changelog header
";
    assert_eq!(header, expected_header);
}

#[test]
fn changelog_header_with_versions_is_parsed() {
    let changelog = "\
# Changelog

My custom changelog header

## [Unreleased]

## [0.2.5] - 2022-12-16
";
    let header = parse_header(changelog).unwrap();
    let expected_header = "\
# Changelog

My custom changelog header

## [Unreleased]
";
    assert_eq!(header, expected_header);
}

#[test]
fn changelog_header_isnt_recognized() {
    // A two-level header similar to `## [Unreleased]` is missing
    let changelog = "\
# Changelog

My custom changelog header
";
    let header = parse_header(changelog);
    assert_eq!(header, None);
}

#[test]
fn changelog_with_unreleased_section_is_parsed() {
    let changelog = "\
# Changelog
All notable changes to this project will be documented in this file.

The format is based on [Keep a Changelog](https://keepachangelog.com/en/1.0.0/),
and this project adheres to [Semantic Versioning](https://semver.org/spec/v2.0.0.html).

## [Unreleased]

## [0.2.5] - 2022-12-16

### Added

- Add function to retrieve default branch (#372)

## [0.2.4] - 2022-12-12

### Changed

- improved error message
";
    let changes = last_changes_from_str_test(changelog);
    let expected_changes = "\
### Added

- Add function to retrieve default branch (#372)";
    assert_eq!(changes, expected_changes);
}

#[test]
fn changelog_without_unreleased_section_is_parsed() {
    let changelog = "\
# Changelog

All notable changes to this project will be documented in this file.

The format is based on [Keep a Changelog](https://keepachangelog.com/en/1.0.0/),
and this project adheres to [Semantic Versioning](https://semver.org/spec/v2.0.0.html).

## [0.2.5](https://github.com/release-plz/release-plz/compare/git_cmd-v0.2.4...git_cmd-v0.2.5) - 2022-12-16

### Added

- Add function to retrieve default branch (#372)

## [0.2.4] - 2022-12-12

### Changed

- improved error message
";
    let changes = last_changes_from_str_test(changelog);
    let expected_changes = "\
### Added

- Add function to retrieve default branch (#372)";
    assert_eq!(changes, expected_changes);
}

#[test]
fn last_version_skips_unreleased() {
    let changelog = "# Changelog\n\n## [Unreleased]\n\n## [1.2.3] - 2024-01-01\n\n- fix\n";
    assert_eq!(last_version_from_str(changelog).unwrap(), Some("1.2.3".to_string()));
    let release = last_release_from_str(changelog).unwrap().unwrap();
    assert_eq!(release.notes(), "- fix");
}

#[test]
fn changelog_with_only_unreleased_has_no_last_release() {
    let changelog = "# Changelog\n\n## [Unreleased]\n\n- wip\n";
    assert_eq!(last_version_from_str(changelog).unwrap(), None);
    assert!(last_release_from_str(changelog).unwrap().is_none());
}
