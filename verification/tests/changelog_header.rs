use release_plz_core::changelog_header::replace_unreleased;

#[test]
fn unreleased_link_is_inserted_if_markdown_link() {
    let header = "# Changelog\n## [Unreleased]";
    let new_header = replace_unreleased(
        header,
        "https://github.com/cargo-generate/cargo-generate/compare/v0.1.2...HEAD",
    );
    assert_eq!(
        new_header,
        "# Changelog\n## [Unreleased](https://github.com/cargo-generate/cargo-generate/compare/v0.1.2...HEAD)"
    );
}

#[test]
fn unreleased_link_is_replaced() {
    let header = "# Changelog\n## [Unreleased](old)";
    let new_header = replace_unreleased(
        header,
        "https://github.com/cargo-generate/cargo-generate/compare/v0.1.2...HEAD",
    );
    assert_eq!(
        new_header,
        "# Changelog\n## [Unreleased](https://github.com/cargo-generate/cargo-generate/compare/v0.1.2...HEAD)"
    );
}

#[test]
fn unreleased_link_isnt_inserted_if_not_markdown_link() {
    let header = "# Changelog\n## Unreleased";
    let new_header = replace_unreleased(
        header,
        "https://github.com/cargo-generate/cargo-generate/compare/v0.1.2...HEAD",
    );
    assert_eq!(new_header, "# Changelog\n## Unreleased");
}
