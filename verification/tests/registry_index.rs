use release_plz_core::cargo::{
    index_locations, is_in_cache, is_version_present, publish_registries, wait_step, IndexLocation, WaitStep,
    PUBLISH_TIMEOUT_NANOS,
};
use release_plz_core::package::Package;
use release_plz_core::package_compare::{
    are_packaged_files_equal, cargo_package_output, is_skipped_file_name, split_lines,
};
use release_plz_core::published_packages::{
    packages_grouped_by_registry, PackagesCollection, PublishedPackage,
};

fn pkg(name: &str, publish: Option<Vec<&str>>) -> Package {
    Package {
        name: name.to_string(),
        dependencies: vec![],
        version: "0.1.0".to_string(),
        features: vec![],
        publish: publish.map(|l| l.iter().map(|s| s.to_string()).collect()),
        targets: vec![],
    }
}

#[test]
fn version_is_found_among_the_index_versions() {
    let versions = vec!["0.1.0".to_string(), "0.2.0".to_string()];
    assert!(is_version_present("0.2.0", &versions));
    assert!(!is_version_present("0.3.0", &versions));
    assert!(!is_version_present("0.1.0", &[]));
}

#[test]
fn crate_missing_from_the_index_is_not_published() {
    assert!(!is_in_cache(None, "0.1.0"));
    let versions = vec!["0.1.0".to_string()];
    assert!(is_in_cache(Some(&versions), "0.1.0"));
    assert!(!is_in_cache(Some(&versions), "1.0.0"));
}

#[test]
fn waiting_stops_when_published_and_gives_up_after_the_timeout() {
    assert_eq!(wait_step(true, PUBLISH_TIMEOUT_NANOS + 1, "a"), WaitStep::Published);
    assert_eq!(wait_step(false, 0, "a"), WaitStep::Retry);
    assert_eq!(wait_step(false, PUBLISH_TIMEOUT_NANOS, "a"), WaitStep::Retry);
    assert_eq!(
        wait_step(false, PUBLISH_TIMEOUT_NANOS + 1, "my_crate"),
        WaitStep::TimedOut("timeout while publishing my_crate".to_string())
    );
}

#[test]
fn lines_are_split_like_str_lines() {
    let text = "a\r\nb\n\nc\n";
    let expected: Vec<String> = text.lines().map(|l| l.to_string()).collect();
    assert_eq!(split_lines(text), expected);
    for text in ["x\r", "a\nb\r", "\r\n", "a\r\r\nb", "\n\n"] {
        let expected: Vec<String> = text.lines().map(|l| l.to_string()).collect();
        assert_eq!(split_lines(text), expected, "{text:?}");
    }
    assert_eq!(split_lines(""), Vec::<String>::new());
    assert_eq!(split_lines("x"), vec!["x".to_string()]);
    assert_eq!(split_lines("\n"), vec!["".to_string()]);
}

#[test]
fn vcs_info_file_is_ignored_in_the_local_list() {
    assert!(are_packaged_files_equal(
        ".cargo_vcs_info.json\nCargo.toml\nsrc/lib.rs\n",
        "Cargo.toml\nsrc/lib.rs\n"
    ));
    assert!(!are_packaged_files_equal(
        "Cargo.toml\nsrc/lib.rs\n",
        ".cargo_vcs_info.json\nCargo.toml\nsrc/lib.rs\n"
    ));
    assert!(!are_packaged_files_equal(
        "Cargo.toml\nsrc/lib.rs\n",
        "Cargo.toml\nCargo.toml.orig.orig\nsrc/lib.rs\n"
    ));
    assert!(!are_packaged_files_equal("Cargo.toml\nsrc/lib.rs", "Cargo.toml"));
    assert!(!are_packaged_files_equal("Cargo.toml", "Cargo.toml\nsrc/lib.rs"));
    assert!(!are_packaged_files_equal("Cargo.toml\nsrc/a.rs", "Cargo.toml\nsrc/b.rs"));
}

#[test]
fn cargo_package_stderr_is_an_error() {
    assert_eq!(cargo_package_output("a\nb".to_string(), ""), Ok("a\nb".to_string()));
    assert_eq!(
        cargo_package_output("a".to_string(), "boom"),
        Err("error while running `cargo package`: boom".to_string())
    );
}

#[test]
fn generated_files_are_not_compared_by_content() {
    assert!(is_skipped_file_name("Cargo.lock"));
    assert!(is_skipped_file_name("Cargo.toml"));
    assert!(is_skipped_file_name("Cargo.toml.orig"));
    assert!(!is_skipped_file_name("lib.rs"));
}

#[test]
fn later_published_package_replaces_the_earlier_one() {
    let mut c = PackagesCollection::new();
    c.push(PublishedPackage::new(pkg("a", None), None));
    c.extend(vec![
        PublishedPackage::new(pkg("b", None), Some("abc".to_string())),
        PublishedPackage::new(pkg("a", Some(vec!["my-registry"])), Some("def".to_string())),
    ]);
    assert_eq!(c.get_package("a").unwrap().publish, Some(vec!["my-registry".to_string()]));
    assert_eq!(c.get_published_package("a").unwrap().published_at_sha1(), Some("def"));
    assert_eq!(c.get_published_package("b").unwrap().published_at_sha1(), Some("abc"));
    assert!(c.get_package("c").is_none());
}

#[test]
fn packages_are_grouped_by_consecutive_registry() {
    let a = pkg("a", None);
    let b = pkg("b", Some(vec!["r1", "r2"]));
    let c = pkg("c", Some(vec!["r1"]));
    let d = pkg("d", Some(vec![]));
    let groups = packages_grouped_by_registry(None, &[&a, &b, &c, &d]);
    assert_eq!(
        groups,
        vec![
            (None, vec!["a".to_string()]),
            (Some("r1".to_string()), vec!["b".to_string(), "c".to_string()]),
            (None, vec!["d".to_string()]),
        ]
    );
    let groups = packages_grouped_by_registry(Some("x"), &[&a, &b]);
    assert_eq!(groups, vec![(Some("x".to_string()), vec!["a".to_string(), "b".to_string()])]);
}

#[test]
fn registry_asked_for_takes_precedence_over_the_publish_field() {
    let publish = Some(vec!["r1".to_string(), "r2".to_string()]);
    assert_eq!(publish_registries(Some("x"), &publish), vec!["x".to_string()]);
    assert_eq!(publish_registries(None, &publish), vec!["r1".to_string(), "r2".to_string()]);
    assert!(publish_registries(None, &None).is_empty());
}

#[test]
fn sparse_urls_give_sparse_indexes_and_no_url_gives_crates_io() {
    let urls = vec![
        "sparse+https://index.crates.io/".to_string(),
        "https://github.com/rust-lang/crates.io-index".to_string(),
    ];
    assert_eq!(
        index_locations(&urls),
        vec![
            IndexLocation::Sparse("sparse+https://index.crates.io/".to_string()),
            IndexLocation::Git("registry+https://github.com/rust-lang/crates.io-index".to_string()),
        ]
    );
    assert_eq!(index_locations(&vec![]), vec![IndexLocation::CratesIo]);
}
