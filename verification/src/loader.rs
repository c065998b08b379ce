//! Files that the compiler is to read from memory in place of the disk.

use vstd::prelude::*;

use crate::path::path_identity;
use crate::table::{entered, PathKey, Table};

verus! {

/// Texts of files, each under its path.
pub type FileTexts = Table<PathKey, String>;

/// The table of `files`, where a later text under the same path replaces an earlier one.
pub open spec fn file_texts_of(files: Seq<(String, String)>) -> Map<
    Seq<Seq<char>>,
    (Seq<char>, String),
>
    decreases files.len(),
{
    if files.len() == 0 {
        Map::empty()
    } else {
        entered::<PathKey, String>(
            file_texts_of(files.drop_last()),
            files.last().0@,
            files.last().1,
        )
    }
}

/// Puts files into a table.
pub fn file_texts(files: Vec<(String, String)>) -> (res: FileTexts)
    ensures
        res@ == file_texts_of(files@),
{
    let mut res: FileTexts = Table::new();
    let mut i: usize = 0;
    assert(res@ == file_texts_of(files@.take(0)));
    while i < files.len()
        invariant
            i <= files@.len(),
            res@ == file_texts_of(files@.take(i as int)),
        decreases files@.len() - i,
    {
        assert(files@.take(i + 1).drop_last() == files@.take(i as int));
        res.insert(files[i].0.clone(), files[i].1.clone());
        i += 1;
    }
    assert(files@.take(i as int) == files@);
    res
}

/// Tries to read a file from a list of replacements; a file that is not there is read from disk.
pub struct ReplacedFileLoader {
    /// What is read in place of files on disk.
    pub replacements: FileTexts,
}

impl ReplacedFileLoader {
    /// A loader with these replacements.
    pub fn new(replacements: FileTexts) -> (res: ReplacedFileLoader)
        ensures
            res.replacements == replacements,
    {
        ReplacedFileLoader { replacements }
    }

    /// Whether the file at `abs_path` is replaced.
    pub open spec fn replaces(self, abs_path: Option<Seq<char>>) -> bool {
        abs_path is Some && self.replacements@.contains_key(path_identity(abs_path->0))
    }

    /// The text to read in place of a file whose absolute path is `abs_path`, where that is known.
    /// `None` sends the reader to the disk.
    pub fn read_file(&self, abs_path: Option<&str>) -> (res: Option<String>)
        ensures
            res is Some <==> self.replaces(crate::path::text_of(abs_path)),
            res matches Some(text) ==> text@ == self.replacements@[path_identity(
                abs_path->0@,
            )].1@,
    {
        match abs_path {
            Some(path) => match self.replacements.get(path) {
                Some(text) => Some(text.clone()),
                None => None,
            },
            None => None,
        }
    }
}

/// What is read at a path is the text that was entered there last, however either path is
/// written, and entering a text changes what is read at no other path.
pub proof fn law_read_gives_back_what_was_entered(
    texts: Map<Seq<Seq<char>>, (Seq<char>, String)>,
    path: Seq<char>,
    text: String,
    other: Seq<char>,
)
    ensures
        ({
            let after = entered::<PathKey, String>(texts, path, text);
            let file = path_identity(other);
            &&& file == path_identity(path) ==> after.contains_key(file) && after[file].1 == text
            &&& file != path_identity(path) ==> after.contains_key(file) == texts.contains_key(file)
                && (texts.contains_key(file) ==> after[file] == texts[file])
        }),
{
}

/// Every file of a list can be read back, unless a later one of the list has the same path.
pub proof fn law_every_file_is_read_back(files: Seq<(String, String)>, at: int)
    requires
        0 <= at < files.len(),
    ensures
        (forall|i: int|
            at < i < files.len() ==> path_identity((#[trigger] files[i]).0@) != path_identity(
                files[at].0@,
            )) ==> {
            let file = path_identity(files[at].0@);
            file_texts_of(files).contains_key(file) && file_texts_of(files)[file].1 == files[at].1
        },
    decreases files.len(),
{
    if at < files.len() - 1 {
        let front = files.drop_last();
        law_every_file_is_read_back(front, at);
        if forall|i: int|
            at < i < files.len() ==> path_identity((#[trigger] files[i]).0@) != path_identity(
                files[at].0@,
            ) {
            assert forall|i: int| at < i < front.len() implies path_identity(
                (#[trigger] front[i]).0@,
            ) != path_identity(front[at].0@) by {
                assert(front[i] == files[i]);
            }
            assert(path_identity(files[files.len() - 1].0@) != path_identity(files[at].0@));
        }
    }
}

/// A table of files has no path that is not in the list.
proof fn lemma_file_texts_of(files: Seq<(String, String)>, file: Seq<Seq<char>>)
    ensures
        file_texts_of(files).contains_key(file) ==> exists|i: int|
            0 <= i < files.len() && path_identity((#[trigger] files[i]).0@) == file,
    decreases files.len(),
{
    if files.len() > 0 && file_texts_of(files).contains_key(file) {
        let front = files.drop_last();
        if file == path_identity(files.last().0@) {
            assert(path_identity(files[files.len() - 1].0@) == file);
        } else {
            lemma_file_texts_of(front, file);
            let i = choose|i: int|
                0 <= i < front.len() && path_identity((#[trigger] front[i]).0@) == file;
            assert(path_identity(files[i].0@) == file);
        }
    }
}

/// The compiler reads every listed file from memory, whatever its text and however its path is
/// written: what `read_file` gives is the text that was listed last under that path. It is sent to
/// the disk only for a path that is not listed or not known.
pub proof fn law_listed_files_are_read_from_memory(
    files: Vec<(String, String)>,
    replacements: FileTexts,
    loader: ReplacedFileLoader,
    abs_path: Option<&str>,
    res: Option<String>,
)
    requires
        call_ensures(file_texts, (files,), replacements),
        call_ensures(ReplacedFileLoader::new, (replacements,), loader),
        call_ensures(ReplacedFileLoader::read_file, (&loader, abs_path), res),
    ensures
        abs_path is None ==> res is None,
        abs_path matches Some(path) ==> {
            &&& forall|at: int|
                0 <= at < files@.len() && path_identity((#[trigger] files@[at]).0@)
                    == path_identity(path@) && (forall|later: int|
                    at < later < files@.len() ==> path_identity((#[trigger] files@[later]).0@)
                        != path_identity(path@)) ==> res is Some && res->0@ == files@[at].1@
            &&& (forall|at: int|
                0 <= at < files@.len() ==> path_identity((#[trigger] files@[at]).0@)
                    != path_identity(path@)) ==> res is None
            &&& res is Some ==> exists|at: int|
                0 <= at < files@.len() && path_identity((#[trigger] files@[at]).0@)
                    == path_identity(path@) && files@[at].1@ == res->0@
        },
{
    if abs_path is Some {
        let path = abs_path->0@;
        let file = path_identity(path);
        assert forall|at: int|
            0 <= at < files@.len() && path_identity((#[trigger] files@[at]).0@) == file && (forall|
                later: int,
            |
                at < later < files@.len() ==> path_identity((#[trigger] files@[later]).0@)
                    != file) implies res is Some && res->0@ == files@[at].1@ by {
            law_every_file_is_read_back(files@, at);
        }
        lemma_file_texts_of(files@, file);
        if res is Some {
            let at = lemma_last_listed(files@, file, files@.len() as int);
            law_every_file_is_read_back(files@, at);
            assert(path_identity(files@[at].0@) == file && files@[at].1@ == res->0@);
        }
    }
}

/// The last of the first `n` files that has the identity `file`.
proof fn lemma_last_listed(files: Seq<(String, String)>, file: Seq<Seq<char>>, n: int) -> (at: int)
    requires
        0 <= n <= files.len(),
        exists|i: int| 0 <= i < n && path_identity((#[trigger] files[i]).0@) == file,
    ensures
        0 <= at < n,
        path_identity(files[at].0@) == file,
        forall|later: int| at < later < n ==> path_identity((#[trigger] files[later]).0@) != file,
    decreases n,
{
    if path_identity(files[n - 1].0@) == file {
        n - 1
    } else {
        lemma_last_listed(files, file, n - 1)
    }
}

/// A loader reads what its replacements hold under the path, and nothing else.
pub proof fn law_loader_reads_its_replacements(
    loader: &ReplacedFileLoader,
    path: &str,
    found: Option<&String>,
    res: Option<String>,
)
    requires
        call_ensures(Table::<PathKey, String>::get, (&loader.replacements, path), found),
        call_ensures(ReplacedFileLoader::read_file, (loader, Some(path)), res),
    ensures
        res is Some <==> found is Some,
        found is Some ==> res->0@ == found->0@,
{
}

} // verus!
