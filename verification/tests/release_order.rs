use release_plz_core::package::{Dependency, DependencyKind, Package};
use release_plz_core::release_order::release_order;

/// Package
fn pkg(name: &str, deps: &[Dependency]) -> Package {
    Package {
        name: name.to_string(),
        dependencies: deps.to_vec(),
        version: "0.1.0".to_string(),
        features: vec![],
        publish: None,
        targets: vec![],
    }
}

/// Dependency
fn dep(name: &str) -> Dependency {
    Dependency {
        name: name.to_string(),
        kind: DependencyKind::Normal,
    }
}

/// Development dependency
fn dev_dep(name: &str) -> Dependency {
    Dependency {
        name: name.to_string(),
        kind: DependencyKind::Development,
    }
}

fn order<'a>(pkgs: &[&'a Package]) -> Vec<&'a str> {
    release_order(pkgs)
        .unwrap()
        .iter()
        .map(|p| p.name.as_str())
        .collect()
}

/// A─►B
#[test]
fn single_package_is_returned() {
    let pkgs = [&pkg("a", &[dep("b")])];
    assert_eq!(order(&pkgs), ["a"]);
}

/// A and B depend on each other.
#[test]
fn two_packages_cycle_is_detected() {
    let pkgs = [&pkg("a", &[dep("b")]), &pkg("b", &[dep("a")])];
    assert_eq!(
        release_order(&pkgs).unwrap_err().to_string(),
        "Circular dependency detected: a -> b"
    );
}

/// A depends on B only for development.
#[test]
fn two_packages_dev_cycle_is_ok() {
    let pkgs = [&pkg("a", &[dev_dep("b")]), &pkg("b", &[dep("a")])];
    assert_eq!(order(&pkgs), ["a", "b"]);

    // check if the order of the vector matters.
    let pkgs = [&pkg("b", &[dep("a")]), &pkg("a", &[dev_dep("b")])];
    assert_eq!(order(&pkgs), ["a", "b"]);
}

/// A─►B, A─►C, B─►A, C─►B
#[test]
fn three_packages_cycle_is_detected() {
    let pkgs = [
        &pkg("a", &[dep("b")]),
        &pkg("a", &[dep("c")]),
        &pkg("b", &[dep("a")]),
        &pkg("c", &[dep("b")]),
    ];
    assert_eq!(
        release_order(&pkgs).unwrap_err().to_string(),
        "Circular dependency detected: a -> b"
    );
}

/// A────►C
/// │     ▲
/// └─►B──┘
#[test]
fn three_packages_are_ordered() {
    let pkgs = [
        &pkg("a", &[dep("b")]),
        &pkg("b", &[dep("c")]),
        &pkg("c", &[]),
    ];
    assert_eq!(order(&pkgs), ["c", "b", "a"]);
}

/// A depends on B for development, but a feature of A uses B.
#[test]
fn two_packages_dev_cycle_with_package_in_features_is_detected() {
    let mut a = pkg("a", &[dev_dep("b")]);
    a.features = vec![("my_feat".to_string(), vec!["b/feat".to_string()])];
    let pkgs = [&a, &pkg("b", &[dep("a")])];
    assert_eq!(
        release_order(&pkgs).unwrap_err().to_string(),
        "Circular dependency detected: a -> b"
    );
}

/// A depends on B for development; its feature names B, but no feature of B.
#[test]
fn two_packages_dev_cycle_with_random_feature_is_ok() {
    let mut a = pkg("a", &[dev_dep("b")]);
    a.features = vec![(
        "my_feat".to_string(),
        vec!["b".to_string(), "rand/b".to_string()],
    )];
    let pkgs = [&a, &pkg("b", &[dep("a")])];
    assert_eq!(order(&pkgs), ["a", "b"]);
}

#[test]
fn empty_workspace_has_empty_order() {
    let pkgs: [&Package; 0] = [];
    assert!(order(&pkgs).is_empty());
}

#[test]
fn dependencies_outside_the_workspace_are_ignored() {
    let pkgs = [&pkg("a", &[dep("serde"), dep("b")]), &pkg("b", &[dep("tokio")])];
    assert_eq!(order(&pkgs), ["b", "a"]);
}

#[test]
fn self_dependency_is_no_cycle() {
    let pkgs = [&pkg("a", &[dep("a")])];
    assert_eq!(order(&pkgs), ["a"]);
}

#[test]
fn build_dependencies_come_first() {
    let b = Dependency {
        name: "b".to_string(),
        kind: DependencyKind::Build,
    };
    let pkgs = [&pkg("a", &[b]), &pkg("b", &[])];
    assert_eq!(order(&pkgs), ["b", "a"]);
}

#[test]
fn longer_cycle_is_detected() {
    let pkgs = [
        &pkg("a", &[dep("b")]),
        &pkg("b", &[dep("c")]),
        &pkg("c", &[dep("a")]),
    ];
    assert_eq!(
        release_order(&pkgs).unwrap_err().to_string(),
        "Circular dependency detected: a -> c"
    );
}

#[test]
fn diamond_is_ordered() {
    let pkgs = [
        &pkg("top", &[dep("left"), dep("right")]),
        &pkg("left", &[dep("bottom")]),
        &pkg("right", &[dep("bottom")]),
        &pkg("bottom", &[]),
    ];
    assert_eq!(order(&pkgs), ["bottom", "left", "right", "top"]);
}
