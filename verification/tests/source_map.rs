use rls_build::crates::{Edition, InputFiles};
use rls_build::source_map::{
    after_expansion, expanded_crate, fetch_input_files, Input, Session, SourceFile,
};
use rls_build::table::Table;

fn file(name: &str, is_real_file: bool, is_imported: bool) -> SourceFile {
    SourceFile { name: name.to_owned(), is_real_file, is_imported }
}

fn session(input: Input) -> Session {
    Session {
        working_dir: "/work".to_owned(),
        input,
        crate_name: "demo".to_owned(),
        disambiguator: (7, 9),
        edition: Edition::Edition2015,
        files: vec![
            file("src/lib.rs", true, false),
            file("<anon>", false, false),
            file("/dep/src/lib.rs", true, true),
            file("/work/src/a.rs", true, false),
        ],
    }
}

#[test]
fn input_files_are_the_real_files_of_the_crate_itself() {
    assert_eq!(
        fetch_input_files(&session(Input::Str)),
        vec!["/work/src/lib.rs".to_owned(), "/work/src/a.rs".to_owned()]
    );
}

#[test]
fn expanded_crate_starts_from_its_input_file() {
    let krate = expanded_crate(&session(Input::File("src/lib.rs".to_owned())));
    assert_eq!(krate.name, "demo");
    assert_eq!(krate.src_path, Some("/work/src/lib.rs".to_owned()));
    assert_eq!(krate.disambiguator, (7, 9));
    assert_eq!(krate.edition, Edition::Edition2015);
    let absolute = expanded_crate(&session(Input::File("/else/main.rs".to_owned())));
    assert_eq!(absolute.src_path, Some("/else/main.rs".to_owned()));
}

#[test]
fn crate_made_from_text_has_no_source_file() {
    assert_eq!(expanded_crate(&session(Input::Str)).src_path, None);
}

#[test]
fn expansion_records_the_input_files_under_the_crate() {
    let mut files: InputFiles = Table::new();
    let sess = session(Input::File("src/lib.rs".to_owned()));
    after_expansion(&mut files, &sess);
    let krate = expanded_crate(&sess);
    assert_eq!(files.entries().len(), 2);
    assert!(files.get("/work/src/lib.rs").unwrap().contains(&krate));
    assert!(files.get("/work/src/a.rs").unwrap().contains(&krate));
    assert!(files.get("/dep/src/lib.rs").is_none());
    after_expansion(&mut files, &sess);
    assert_eq!(files.entries().len(), 2);
    assert_eq!(files.get("/work/src/a.rs").unwrap().crates().len(), 1);
}
