use rls_build::crates::{record_file, record_files, same_crate, Crate, CrateSet, Edition, InputFiles};
use rls_build::table::Table;

fn krate(name: &str, src_path: Option<&str>) -> Crate {
    Crate {
        name: name.to_owned(),
        src_path: src_path.map(str::to_owned),
        disambiguator: (1, 2),
        edition: Edition::Edition2018,
    }
}

fn names(files: &InputFiles, path: &str) -> Vec<String> {
    files.get(path).unwrap().crates().iter().map(|krate| krate.name.clone()).collect()
}

#[test]
fn crates_are_told_apart_by_all_of_their_fields() {
    let a = krate("a", Some("/a/lib.rs"));
    assert!(same_crate(&a, &a.clone()));
    assert!(same_crate(&a, &krate("a", Some("/a//lib.rs"))));
    assert!(!same_crate(&a, &krate("b", Some("/a/lib.rs"))));
    assert!(!same_crate(&a, &krate("a", Some("/b/lib.rs"))));
    assert!(!same_crate(&a, &krate("a", None)));
    assert!(same_crate(&krate("a", None), &krate("a", None)));
    let mut other = a.clone();
    other.disambiguator = (1, 3);
    assert!(!same_crate(&a, &other));
    other.disambiguator = (0, 2);
    assert!(!same_crate(&a, &other));
    let mut older = a.clone();
    older.edition = Edition::Edition2015;
    assert!(!same_crate(&a, &older));
}

#[test]
fn a_set_holds_no_crate_twice() {
    let mut set = CrateSet::new();
    assert!(!set.contains(&krate("a", None)));
    assert!(set.insert(krate("a", Some("/a/lib.rs"))));
    assert!(!set.insert(krate("a", Some("/a/./lib.rs"))));
    assert!(set.insert(krate("b", None)));
    assert!(set.contains(&krate("b", None)));
    assert_eq!(set.crates().len(), 2);
    assert_eq!(set.crates()[0].src_path, Some("/a/lib.rs".to_owned()));
}

#[test]
fn a_file_can_be_part_of_several_crates() {
    let mut files: InputFiles = Table::new();
    record_file(&mut files, "/src/shared.rs".to_owned(), krate("a", None));
    record_file(&mut files, "/src//shared.rs".to_owned(), krate("b", None));
    record_file(&mut files, "/src/b.rs".to_owned(), krate("b", None));
    assert_eq!(names(&files, "/src/shared.rs"), vec!["a", "b"]);
    assert_eq!(names(&files, "/src/b.rs"), vec!["b"]);
    assert!(files.get("/src/c.rs").is_none());
    assert_eq!(files.entries().len(), 2);
    assert_eq!(files.entries()[0].0, "/src/shared.rs");
}

#[test]
fn recording_a_file_twice_changes_nothing() {
    let mut files: InputFiles = Table::new();
    record_file(&mut files, "/a.rs".to_owned(), krate("a", None));
    record_file(&mut files, "/a.rs".to_owned(), krate("a", None));
    assert_eq!(names(&files, "/a.rs"), vec!["a"]);
    assert_eq!(files.entries().len(), 1);
}

#[test]
fn recording_order_does_not_change_what_is_recorded() {
    let mut one: InputFiles = Table::new();
    record_file(&mut one, "/s.rs".to_owned(), krate("a", None));
    record_file(&mut one, "/s.rs".to_owned(), krate("b", None));
    let mut two: InputFiles = Table::new();
    record_file(&mut two, "/s.rs".to_owned(), krate("b", None));
    record_file(&mut two, "/s.rs".to_owned(), krate("a", None));
    for name in ["a", "b", "c"] {
        let krate = krate(name, None);
        assert_eq!(
            one.get("/s.rs").unwrap().contains(&krate),
            two.get("/s.rs").unwrap().contains(&krate)
        );
    }
}

#[test]
fn all_files_of_a_crate_are_recorded() {
    let mut files: InputFiles = Table::new();
    record_file(&mut files, "/a.rs".to_owned(), krate("a", None));
    record_files(&mut files, vec!["/a.rs".to_owned(), "/b.rs".to_owned()], &krate("b", None));
    assert_eq!(names(&files, "/a.rs"), vec!["a", "b"]);
    assert_eq!(names(&files, "/b.rs"), vec!["b"]);
}
