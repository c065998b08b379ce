//! What the compiler has read by the time a crate is expanded.

use vstd::prelude::*;

use crate::crates::{
    crates_by_file, is_recorded, law_recording_adds_all_files, record_files, with_files, Crate,
    CrateId, Edition, InputFiles,
};
use crate::path::{joined_path, path_from, path_identity, path_is_absolute, src_path};
use crate::text::texts;

verus! {

/// A file that the compiler has loaded.
pub struct SourceFile {
    /// The name of the file.
    pub name: String,
    /// Whether it is a file on disk, and not text that was made up on the way.
    pub is_real_file: bool,
    /// Whether it belongs to a crate that this one depends on.
    pub is_imported: bool,
}

/// What the compiler was told to compile.
pub enum Input {
    /// A file.
    File(String),
    /// Text that comes from no file.
    Str,
}

/// A compilation whose crate has been expanded.
pub struct Session {
    /// The directory that the compiler runs in.
    pub working_dir: String,
    /// What the compiler was told to compile.
    pub input: Input,
    /// The name of the crate.
    pub crate_name: String,
    /// What tells the crate apart from others of its name.
    pub disambiguator: (u64, u64),
    /// The edition that the crate is written in.
    pub edition: Edition,
    /// All files that the compiler has loaded.
    pub files: Vec<SourceFile>,
}

impl SourceFile {
    /// Whether the file is part of the crate that is being compiled.
    pub open spec fn is_input(self) -> bool {
        self.is_real_file && !self.is_imported
    }
}

/// The paths of those of `files` that are part of the crate, in their order.
pub open spec fn input_files_of(cwd: Seq<char>, files: Seq<SourceFile>) -> Seq<Seq<char>> {
    files.filter(|file: SourceFile| file.is_input()).map_values(
        |file: SourceFile| path_from(cwd, file.name@),
    )
}

/// One more file adds its path if it is part of the crate.
proof fn lemma_input_files_of_push(cwd: Seq<char>, files: Seq<SourceFile>, file: SourceFile)
    ensures
        input_files_of(cwd, files.push(file)) == if file.is_input() {
            input_files_of(cwd, files).push(path_from(cwd, file.name@))
        } else {
            input_files_of(cwd, files)
        },
{
    reveal(Seq::filter);
    assert(files.push(file).drop_last() == files);
    assert(input_files_of(cwd, files.push(file)) =~= if file.is_input() {
        input_files_of(cwd, files).push(path_from(cwd, file.name@))
    } else {
        input_files_of(cwd, files)
    });
}

/// The paths of the files on disk that the crate is made of.
pub fn fetch_input_files(sess: &Session) -> (res: Vec<String>)
    ensures
        texts(res@) == input_files_of(sess.working_dir@, sess.files@),
{
    let ghost cwd = sess.working_dir@;
    let mut res: Vec<String> = Vec::new();
    let mut i: usize = 0;
    proof {
        reveal(Seq::filter);
        assert(texts(res@) =~= input_files_of(cwd, sess.files@.take(0)));
    }
    while i < sess.files.len()
        invariant
            i <= sess.files@.len(),
            cwd == sess.working_dir@,
            texts(res@) == input_files_of(cwd, sess.files@.take(i as int)),
        decreases sess.files@.len() - i,
    {
        let file = &sess.files[i];
        proof {
            assert(sess.files@.take(i + 1) == sess.files@.take(i as int).push(*file));
            lemma_input_files_of_push(cwd, sess.files@.take(i as int), *file);
        }
        if file.is_real_file && !file.is_imported {
            let path = src_path(Some(&sess.working_dir), &file.name, None).unwrap();
            assert(texts(res@.push(path)) == texts(res@).push(path@));
            res.push(path);
        }
        i += 1;
    }
    assert(sess.files@.take(i as int) == sess.files@);
    res
}

/// The file that the crate starts from.
pub open spec fn root_file(sess: Session) -> Option<Seq<char>> {
    match sess.input {
        Input::File(name) => Some(path_from(sess.working_dir@, name@)),
        Input::Str => None,
    }
}

/// Whether `krate` is the crate that `sess` compiles.
pub open spec fn is_crate_of(sess: Session, krate: Crate) -> bool {
    &&& krate.name@ == sess.crate_name@
    &&& match krate.src_path {
        Some(path) => root_file(sess) == Some(path@),
        None => root_file(sess) is None,
    }
    &&& krate.disambiguator == sess.disambiguator
    &&& krate.edition == sess.edition
}

/// The crate that `sess` compiles.
pub fn expanded_crate(sess: &Session) -> (res: Crate)
    ensures
        is_crate_of(*sess, res),
{
    let src_path = match &sess.input {
        Input::File(name) => src_path(Some(&sess.working_dir), name, None),
        Input::Str => None,
    };
    Crate {
        name: sess.crate_name.clone(),
        src_path,
        disambiguator: sess.disambiguator,
        edition: sess.edition,
    }
}

/// Records the files that the expanded crate is made of, which are known only now, since
/// expansion can load more of them.
pub fn after_expansion(input_files: &mut InputFiles, sess: &Session)
    ensures
        exists|krate: Crate|
            is_crate_of(*sess, krate) && crates_by_file(final(input_files)@) == with_files(
                crates_by_file(old(input_files)@),
                input_files_of(sess.working_dir@, sess.files@),
                krate,
            ),
{
    let krate = expanded_crate(sess);
    let files = fetch_input_files(sess);
    record_files(input_files, files, &krate);
    assert(is_crate_of(*sess, krate));
}

/// The paths of a crate's files are those of the loaded files that are part of it.
proof fn lemma_input_files_of(cwd: Seq<char>, files: Seq<SourceFile>, path: Seq<char>)
    ensures
        input_files_of(cwd, files).contains(path) <==> exists|i: int|
            0 <= i < files.len() && (#[trigger] files[i]).is_input() && path_from(
                cwd,
                files[i].name@,
            ) == path,
    decreases files.len(),
{
    reveal(Seq::filter);
    if files.len() > 0 {
        let front = files.drop_last();
        let file = files.last();
        let paths = input_files_of(cwd, front);
        let last = path_from(cwd, file.name@);
        lemma_input_files_of(cwd, front, path);
        assert(front.push(file) == files);
        lemma_input_files_of_push(cwd, front, file);
        if paths.contains(path) {
            let i = paths.index_of(path);
            assert(paths.push(last)[i] == path);
            let k = choose|k: int|
                0 <= k < front.len() && (#[trigger] front[k]).is_input() && path_from(
                    cwd,
                    front[k].name@,
                ) == path;
            assert(files[k] == front[k]);
        }
        if file.is_input() && last == path {
            assert(paths.push(last)[paths.len() as int] == path);
            assert(files[files.len() - 1] == file);
        }
        if exists|i: int|
            0 <= i < files.len() && (#[trigger] files[i]).is_input() && path_from(
                cwd,
                files[i].name@,
            ) == path {
            let k = choose|k: int|
                0 <= k < files.len() && (#[trigger] files[k]).is_input() && path_from(
                    cwd,
                    files[k].name@,
                ) == path;
            if k < front.len() {
                assert(front[k] == files[k]);
            }
        }
    }
}

/// After the expansion of `krate`, a file is recorded under a crate if it was before, or if the
/// crate is `krate` and the file is one of those on disk that the compiler loaded for it.
pub proof fn law_expansion_records_the_files_of_the_crate(
    files: Map<Seq<Seq<char>>, (Seq<char>, Seq<Crate>)>,
    sess: Session,
    krate: Crate,
    file: Seq<Seq<char>>,
    other: CrateId,
)
    ensures
        is_recorded(
            with_files(files, input_files_of(sess.working_dir@, sess.files@), krate),
            file,
            other,
        ) <==> is_recorded(files, file, other) || (other == krate.id() && exists|i: int|
            0 <= i < sess.files@.len() && (#[trigger] sess.files@[i]).is_input() && path_identity(
                path_from(sess.working_dir@, sess.files@[i].name@),
            ) == file),
{
    let cwd = sess.working_dir@;
    let paths = input_files_of(cwd, sess.files@);
    law_recording_adds_all_files(files, paths, krate, file, other);
    if exists|i: int| 0 <= i < paths.len() && path_identity(#[trigger] paths[i]) == file {
        let i = choose|i: int| 0 <= i < paths.len() && path_identity(#[trigger] paths[i]) == file;
        assert(paths.contains(paths[i]));
        lemma_input_files_of(cwd, sess.files@, paths[i]);
    }
    if exists|i: int|
        0 <= i < sess.files@.len() && (#[trigger] sess.files@[i]).is_input() && path_identity(
            path_from(cwd, sess.files@[i].name@),
        ) == file {
        let k = choose|k: int|
            0 <= k < sess.files@.len() && (#[trigger] sess.files@[k]).is_input() && path_identity(
                path_from(cwd, sess.files@[k].name@),
            ) == file;
        let path = path_from(cwd, sess.files@[k].name@);
        lemma_input_files_of(cwd, sess.files@, path);
        assert(paths.contains(path));
        assert(paths[paths.index_of(path)] == path);
    }
}

/// Which of `files` the input files come from.
proof fn lemma_picked(cwd: Seq<char>, files: Seq<SourceFile>) -> (picks: Seq<int>)
    ensures
        picks.len() == input_files_of(cwd, files).len(),
        forall|k: int|
            0 <= k < picks.len() ==> {
                &&& 0 <= #[trigger] picks[k] < files.len()
                &&& files[picks[k]].is_input()
                &&& input_files_of(cwd, files)[k] == path_from(cwd, files[picks[k]].name@)
            },
        forall|k: int, m: int| 0 <= k < m < picks.len() ==> #[trigger] picks[k] < #[trigger] picks[m],
        forall|j: int| 0 <= j < files.len() && (#[trigger] files[j]).is_input() ==> picks.contains(j),
    decreases files.len(),
{
    reveal(Seq::filter);
    if files.len() == 0 {
        Seq::empty()
    } else {
        let front = files.drop_last();
        let file = files.last();
        let before = lemma_picked(cwd, front);
        assert(front.push(file) == files);
        lemma_input_files_of_push(cwd, front, file);
        let last = files.len() - 1;
        let picks = if file.is_input() {
            before.push(last)
        } else {
            before
        };
        assert forall|k: int| 0 <= k < picks.len() implies {
            &&& 0 <= #[trigger] picks[k] < files.len()
            &&& files[picks[k]].is_input()
            &&& input_files_of(cwd, files)[k] == path_from(cwd, files[picks[k]].name@)
        } by {
            if k < before.len() {
                assert(picks[k] == before[k]);
                assert(files[before[k]] == front[before[k]]);
            }
        }
        assert forall|k: int, m: int| 0 <= k < m < picks.len() implies #[trigger] picks[k]
            < #[trigger] picks[m] by {
            assert(picks[k] == before[k]);
            if m < before.len() {
                assert(picks[m] == before[m]);
            }
        }
        assert forall|j: int| 0 <= j < files.len() && (
        #[trigger] files[j]).is_input() implies picks.contains(j) by {
            if j < last {
                assert(front[j].is_input());
                let k = before.index_of(j);
                assert(picks[k] == j);
            } else {
                assert(picks[before.len() as int] == j);
            }
        }
        picks
    }
}

/// The input files are the loaded files that are real and not imported, all of them and no others,
/// in their order, each by the path that its name leads to from the working directory.
pub proof fn law_input_files(sess: &Session, res: Vec<String>) -> (picks: Seq<int>)
    requires
        call_ensures(fetch_input_files, (sess,), res),
    ensures
        picks.len() == res@.len(),
        forall|k: int|
            0 <= k < picks.len() ==> 0 <= #[trigger] picks[k] < sess.files@.len()
                && sess.files@[picks[k]].is_real_file && !sess.files@[picks[k]].is_imported,
        forall|k: int, m: int| 0 <= k < m < picks.len() ==> #[trigger] picks[k] < #[trigger] picks[m],
        forall|j: int|
            0 <= j < sess.files@.len() && (#[trigger] sess.files@[j]).is_real_file
                && !sess.files@[j].is_imported ==> picks.contains(j),
        forall|k: int|
            0 <= k < picks.len() ==> (#[trigger] res@[k])@ == {
                let name = sess.files@[picks[k]].name@;
                if path_is_absolute(name) {
                    name
                } else {
                    joined_path(sess.working_dir@, name)
                }
            },
{
    let picks = lemma_picked(sess.working_dir@, sess.files@);
    let found = texts(res@);
    let paths = input_files_of(sess.working_dir@, sess.files@);
    assert(found == paths);
    assert(found.len() == res@.len());
    assert forall|k: int| 0 <= k < picks.len() implies 0 <= #[trigger] picks[k] < sess.files@.len()
        && sess.files@[picks[k]].is_real_file && !sess.files@[picks[k]].is_imported by {
        assert(sess.files@[picks[k]].is_input());
    }
    assert forall|j: int|
        0 <= j < sess.files@.len() && (#[trigger] sess.files@[j]).is_real_file
            && !sess.files@[j].is_imported implies picks.contains(j) by {
        assert(sess.files@[j].is_input());
    }
    assert forall|k: int| 0 <= k < picks.len() implies (#[trigger] res@[k])@ == {
        let name = sess.files@[picks[k]].name@;
        if path_is_absolute(name) {
            name
        } else {
            joined_path(sess.working_dir@, name)
        }
    } by {
        assert(found[k] == res@[k]@);
        assert(paths[k] == path_from(sess.working_dir@, sess.files@[picks[k]].name@));
    }
    picks
}

/// The crate that was compiled has the name, the disambiguator and the edition of the session. Its
/// source file is the path that the input leads to from the working directory; a crate made from
/// text has none.
pub proof fn law_expanded_crate(sess: &Session, res: Crate)
    requires
        call_ensures(expanded_crate, (sess,), res),
    ensures
        res.name@ == sess.crate_name@,
        res.disambiguator == sess.disambiguator,
        res.edition == sess.edition,
        sess.input matches Input::File(name) ==> res.src_path is Some && res.src_path->0@ == (
        if path_is_absolute(name@) {
            name@
        } else {
            joined_path(sess.working_dir@, name@)
        }),
        sess.input is Str ==> res.src_path is None,
{
}

/// After the expansion, a file is recorded under a crate if it was before, or if it is loaded, real
/// and not imported, and the crate has the name, the source file, the disambiguator and the edition
/// of the session.
pub proof fn law_expansion(
    input_files: &mut InputFiles,
    sess: &Session,
    file: Seq<Seq<char>>,
    other: CrateId,
)
    requires
        call_ensures(after_expansion, (input_files, sess), ()),
    ensures
        (final(input_files)@.contains_key(file) && final(input_files)@[file].1@.contains(other))
            <==> {
            ||| old(input_files)@.contains_key(file) && old(input_files)@[file].1@.contains(other)
            ||| {
                &&& other.name == sess.crate_name@
                &&& other.disambiguator == sess.disambiguator
                &&& other.edition == sess.edition
                &&& other.src_path == match sess.input {
                    Input::File(name) => Some(
                        path_identity(
                            if path_is_absolute(name@) {
                                name@
                            } else {
                                joined_path(sess.working_dir@, name@)
                            },
                        ),
                    ),
                    Input::Str => None,
                }
                &&& exists|j: int|
                    0 <= j < sess.files@.len() && (#[trigger] sess.files@[j]).is_real_file
                        && !sess.files@[j].is_imported && path_identity(
                        if path_is_absolute(sess.files@[j].name@) {
                            sess.files@[j].name@
                        } else {
                            joined_path(sess.working_dir@, sess.files@[j].name@)
                        },
                    ) == file
            }
        },
{
    let before = crates_by_file(old(input_files)@);
    let after = crates_by_file(final(input_files)@);
    let paths = input_files_of(sess.working_dir@, sess.files@);
    let krate = choose|krate: Crate|
        is_crate_of(*sess, krate) && after == with_files(before, paths, krate);
    law_expansion_records_the_files_of_the_crate(before, *sess, krate, file, other);
    assert(before.contains_key(file) == old(input_files)@.contains_key(file));
    assert(after.contains_key(file) == final(input_files)@.contains_key(file));
    assert(krate.id().edition == sess.edition);
}

} // verus!
