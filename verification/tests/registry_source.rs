use release_plz_core::clone::{is_empty_registry_error, CargoSource, ClonerSource, Crate};
use release_plz_core::download::PackageDownloader;
use release_plz_core::package_path::manifest_dir;

#[test]
fn downloader_source_and_crates() {
    let d = PackageDownloader::new(vec!["rand".to_string(), "serde".to_string()], "dir".to_string());
    assert!(matches!(d.source().cargo_source, CargoSource::CratesIo));
    let crates = d.crates();
    assert_eq!(crates, vec![Crate::new("rand".to_string(), None), Crate::new("serde".to_string(), None)]);
    let d = d.with_registry("my-reg".to_string()).with_cargo_cwd(std::path::PathBuf::from("/tmp"));
    match d.source().cargo_source {
        CargoSource::Registry(r) => assert_eq!(r, "my-reg"),
        CargoSource::CratesIo => panic!("expected the registry"),
    }
}

#[test]
fn cloner_sources() {
    assert!(matches!(ClonerSource::crates_io().cargo_source, CargoSource::CratesIo));
    assert!(matches!(ClonerSource::registry("r".to_string()).cargo_source, CargoSource::Registry(ref r) if r == "r"));
    assert!(is_empty_registry_error("error: failed to fetch `https://x`"));
    assert!(!is_empty_registry_error("error: timeout"));
}

#[test]
fn manifest_dir_is_the_parent() {
    assert_eq!(manifest_dir("/a/b/Cargo.toml").unwrap(), "/a/b");
    assert_eq!(
        manifest_dir("/").unwrap_err(),
        "Cannot find directory where manifest \"/\" is located"
    );
}
