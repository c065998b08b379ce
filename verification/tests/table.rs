use rls_build::table::{NameKey, PathKey, Table};

#[test]
fn insert_replaces_and_hands_back_the_old_value() {
    let mut table: Table<NameKey, u8> = Table::new();
    assert_eq!(table.get("a"), None);
    assert_eq!(table.insert("a".to_owned(), 1), None);
    assert_eq!(table.insert("b".to_owned(), 2), None);
    assert_eq!(table.insert("a".to_owned(), 3), Some(1));
    assert_eq!(table.get("a"), Some(&3));
    assert_eq!(table.get("b"), Some(&2));
    assert_eq!(table.entries(), &vec![("a".to_owned(), 3), ("b".to_owned(), 2)]);
}

#[test]
fn names_are_keys_of_their_own_however_alike() {
    let mut table: Table<NameKey, u8> = Table::new();
    table.insert("/a/b".to_owned(), 1);
    assert_eq!(table.get("/a//b"), None);
}

#[test]
fn paths_with_the_same_components_are_the_same_key() {
    let mut table: Table<PathKey, u8> = Table::new();
    table.insert("/a/b".to_owned(), 1);
    assert_eq!(table.get("/a//b"), Some(&1));
    assert_eq!(table.get("/a/./b/"), Some(&1));
    assert_eq!(table.get("/a/c/../b"), None);
    assert_eq!(table.insert("/a//b".to_owned(), 2), Some(1));
    assert_eq!(table.entries(), &vec![("/a/b".to_owned(), 2)]);
}
