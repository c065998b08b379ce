use rls_build::path::{path_base, src_path, PathBase};

#[test]
fn absolute_path_stays_wherever_the_compiler_runs() {
    assert_eq!(src_path(None, "/a/b.rs", None), Some("/a/b.rs".to_owned()));
    assert_eq!(src_path(Some("/cwd"), "/a/b.rs", None), Some("/a/b.rs".to_owned()));
    assert_eq!(src_path(None, "/a/b.rs", Some("/dir")), Some("/a/b.rs".to_owned()));
}

#[test]
fn relative_path_is_joined_to_cwd() {
    assert_eq!(src_path(Some("/cwd"), "src/lib.rs", None), Some("/cwd/src/lib.rs".to_owned()));
    assert_eq!(src_path(Some("/cwd/"), "src/lib.rs", Some("/dir")), Some("/cwd/src/lib.rs".to_owned()));
}

#[test]
fn relative_path_is_joined_to_the_current_directory_without_cwd() {
    assert_eq!(src_path(None, "src/lib.rs", Some("/dir")), Some("/dir/src/lib.rs".to_owned()));
}

#[test]
fn relative_path_without_any_directory_has_no_source_path() {
    assert_eq!(src_path(None, "src/lib.rs", None), None);
}

#[test]
fn base_of_a_path() {
    assert!(matches!(path_base(Some("/cwd"), true, Some("/dir")), PathBase::Itself));
    assert!(matches!(path_base(Some("/cwd"), false, Some("/dir")), PathBase::Under("/cwd")));
    assert!(matches!(path_base(None, false, Some("/dir")), PathBase::Under("/dir")));
    assert!(matches!(path_base(None, false, None), PathBase::Unknown));
}

#[test]
fn resolving_a_resolved_path_changes_nothing() {
    let resolved = src_path(Some("/cwd"), "src/lib.rs", None).unwrap();
    assert_eq!(src_path(Some("/other"), &resolved, None), Some(resolved.clone()));
    assert_eq!(src_path(None, &resolved, None), Some(resolved));
}
