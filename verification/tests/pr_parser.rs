use release_plz_core::pr_parser::{prs_from_text, Pr};

fn pr(number: u64, url: &str) -> Pr {
    Pr {
        number,
        html_url: url.to_string(),
    }
}

#[test]
fn parse_pr_correctly() {
    let changelog_entry = r#"
### Added
- use cargo registry environment variable to authenticate in private sparse registry ([#1435](https://github.com/MarcoIeni/release-plz/pull/1435))

### Other
- add `needless_pass_by_value` lint ([#1441](https://github.com/MarcoIeni/release-plz/pull/1441))
- add `uninlined_format_args` ([#1440](https://github.com/MarcoIeni/release-plz/pull/1440))
- add clippy lints ([#1439](https://github.com/MarcoIeni/release-plz/pull/1439))
- add `if_not_else` clippy lint ([#1438](https://github.com/MarcoIeni/release-plz/pull/1438))
- update dependencies ([#1437](https://github.com/MarcoIeni/release-plz/pull/1437))
"#;
    let prs = prs_from_text(changelog_entry);
    assert_eq!(
        prs,
        vec![
            pr(1435, "https://github.com/MarcoIeni/release-plz/pull/1435"),
            pr(1441, "https://github.com/MarcoIeni/release-plz/pull/1441"),
            pr(1440, "https://github.com/MarcoIeni/release-plz/pull/1440"),
            pr(1439, "https://github.com/MarcoIeni/release-plz/pull/1439"),
            pr(1438, "https://github.com/MarcoIeni/release-plz/pull/1438"),
            pr(1437, "https://github.com/MarcoIeni/release-plz/pull/1437"),
        ]
    );
}

#[test]
fn gitea_pulls_links_and_too_large_numbers() {
    let text = "see http://gitea.local/o/r/pulls/7 and https://x.y/pull/99999999999999999999999";
    assert_eq!(prs_from_text(text), vec![pr(7, "http://gitea.local/o/r/pulls/7")]);
    assert!(prs_from_text("no links here, #12").is_empty());
}
