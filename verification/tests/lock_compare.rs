use release_plz_core::lock_compare::{are_dependencies_updated, Lockfile, Package};

fn lock(packages: &[(&str, &str)]) -> Lockfile {
    Lockfile {
        packages: packages
            .iter()
            .map(|(n, v)| Package {
                name: n.to_string(),
                version: v.to_string(),
            })
            .collect(),
    }
}

#[test]
fn same_lockfiles_are_not_updated() {
    let l = lock(&[("a", "1.0.0"), ("b", "2.0.0")]);
    assert!(!are_dependencies_updated(&l, &l.clone()));
}

#[test]
fn changed_version_is_an_update() {
    let local = lock(&[("a", "1.0.1"), ("b", "2.0.0")]);
    let registry = lock(&[("a", "1.0.0"), ("b", "2.0.0")]);
    assert!(are_dependencies_updated(&local, &registry));
}

#[test]
fn new_local_packages_and_missing_ones_are_no_update() {
    let local = lock(&[("a", "1.0.0"), ("dev_only", "0.1.0")]);
    let registry = lock(&[("a", "1.0.0"), ("gone", "3.0.0")]);
    assert!(!are_dependencies_updated(&local, &registry));
}

#[test]
fn any_local_version_of_a_name_matches() {
    let local = lock(&[("a", "2.0.0"), ("a", "1.0.0")]);
    let registry = lock(&[("a", "1.0.0")]);
    assert!(!are_dependencies_updated(&local, &registry));
    let registry = lock(&[("a", "3.0.0")]);
    assert!(are_dependencies_updated(&local, &registry));
}
