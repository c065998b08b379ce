use rls_build::loader::{file_texts, ReplacedFileLoader};

fn loader() -> ReplacedFileLoader {
    ReplacedFileLoader::new(file_texts(vec![
        ("/a.rs".to_owned(), "one".to_owned()),
        ("/b.rs".to_owned(), "two".to_owned()),
    ]))
}

#[test]
fn replaced_file_is_read_from_memory() {
    assert_eq!(loader().read_file(Some("/a.rs")), Some("one".to_owned()));
    assert_eq!(loader().read_file(Some("//b.rs")), Some("two".to_owned()));
}

#[test]
fn other_file_is_left_to_the_disk() {
    assert_eq!(loader().read_file(Some("/c.rs")), None);
}

#[test]
fn file_without_absolute_path_is_left_to_the_disk() {
    assert_eq!(loader().read_file(None), None);
}

#[test]
fn a_later_text_replaces_an_earlier_one() {
    let texts = file_texts(vec![
        ("/a.rs".to_owned(), "old".to_owned()),
        ("/b.rs".to_owned(), "b".to_owned()),
        ("/./a.rs".to_owned(), "new".to_owned()),
    ]);
    assert_eq!(texts.get("/a.rs"), Some(&"new".to_owned()));
    assert_eq!(texts.entries().len(), 2);
}
