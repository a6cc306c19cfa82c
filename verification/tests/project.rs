use release_plz_core::project::{check_for_typos, contains_string, insert_sorted};

#[test]
fn test_for_typos() {
    let packages = vec!["foo".to_string()];
    let overrides = vec!["bar".to_string()];
    let result = check_for_typos(&packages, &overrides);
    assert_eq!(
        result.unwrap_err().to_string(),
        "The following overrides are not present in the workspace: `bar`. Check for typos"
    );
}

#[test]
fn overrides_of_existing_packages_are_accepted() {
    let packages = vec!["foo".to_string(), "bar".to_string()];
    let overrides = vec!["bar".to_string(), "foo".to_string(), "bar".to_string()];
    assert!(check_for_typos(&packages, &overrides).is_ok());
    assert!(check_for_typos(&packages, &vec![]).is_ok());
}

#[test]
fn typos_are_sorted_and_listed_once() {
    let packages = vec!["foo".to_string()];
    let overrides = vec![
        "zed".to_string(),
        "abc".to_string(),
        "foo".to_string(),
        "zed".to_string(),
    ];
    let err = check_for_typos(&packages, &overrides).unwrap_err();
    assert_eq!(err.missing, vec!["abc", "zed"]);
    assert_eq!(
        err.to_string(),
        "The following overrides are not present in the workspace: `abc`, `zed`. Check for typos"
    );
}

#[test]
fn sorted_insertion_keeps_order_and_uniqueness() {
    let mut v: Vec<String> = vec![];
    for s in ["b", "a", "c", "a"] {
        insert_sorted(&mut v, s.to_string());
    }
    assert_eq!(v, vec!["a", "b", "c"]);
    assert!(contains_string(&v, "b"));
    assert!(!contains_string(&v, "d"));
}
