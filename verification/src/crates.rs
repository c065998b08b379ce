//! Crates, and the source files that each of them is made of.

use vstd::prelude::*;

use crate::path::{path_identity, same_path};
use crate::table::{PathKey, Table};
use crate::text::texts;

verus! {

/// The edition of the language that a crate is written in.
#[derive(Clone, Copy, Debug, PartialEq, Eq, Hash, Structural)]
pub enum Edition {
    Edition2015,
    Edition2018,
}

/// A crate, as the compiler sees it.
#[derive(Debug)]
pub struct Crate {
    /// The name of the crate.
    pub name: String,
    /// The file that the crate starts from, if it comes from a file.
    pub src_path: Option<String>,
    /// What tells crates of the same name apart.
    pub disambiguator: (u64, u64),
    /// The edition that the crate is written in.
    pub edition: Edition,
}

/// What crates are told apart by.
pub ghost struct CrateId {
    pub name: Seq<char>,
    pub src_path: Option<Seq<Seq<char>>>,
    pub disambiguator: (u64, u64),
    pub edition: Edition,
}

/// What an optional path is compared by.
pub open spec fn optional_identity(path: Option<String>) -> Option<Seq<Seq<char>>> {
    match path {
        Some(p) => Some(path_identity(p@)),
        None => None,
    }
}

impl Crate {
    /// What the crate is told apart by. Its source file may be written in different ways.
    pub open spec fn id(self) -> CrateId {
        CrateId {
            name: self.name@,
            src_path: optional_identity(self.src_path),
            disambiguator: self.disambiguator,
            edition: self.edition,
        }
    }
}

impl Clone for Crate {
    fn clone(&self) -> (res: Self)
        ensures
            res == *self,
    {
        let src_path = match &self.src_path {
            Some(path) => Some(path.clone()),
            None => None,
        };
        Crate {
            name: self.name.clone(),
            src_path,
            disambiguator: self.disambiguator,
            edition: self.edition,
        }
    }
}

/// Whether two descriptions are of the same crate.
pub fn same_crate(left: &Crate, right: &Crate) -> (res: bool)
    ensures
        res == (left.id() == right.id()),
{
    let same_src_path = match (&left.src_path, &right.src_path) {
        (Some(l), Some(r)) => same_path(l, r),
        (None, None) => true,
        _ => false,
    };
    left.name == right.name && same_src_path && left.disambiguator.0 == right.disambiguator.0
        && left.disambiguator.1 == right.disambiguator.1 && left.edition == right.edition
}

/// A set of crates.
pub struct CrateSet {
    crates: Vec<Crate>,
}

/// Whether no two of `crates` are the same crate.
pub open spec fn crates_differ(crates: Seq<Crate>) -> bool {
    forall|i: int, j: int|
        0 <= i < j < crates.len() ==> (#[trigger] crates[i]).id() != (#[trigger] crates[j]).id()
}

/// The identities of `crates`.
pub open spec fn ids_of(crates: Seq<Crate>) -> Set<CrateId> {
    crates.map_values(|c: Crate| c.id()).to_set()
}

/// Adding a crate adds its identity.
proof fn lemma_ids_of_push(crates: Seq<Crate>, krate: Crate)
    ensures
        ids_of(crates.push(krate)) == ids_of(crates).insert(krate.id()),
{
    let ids = crates.map_values(|c: Crate| c.id());
    let more = crates.push(krate).map_values(|c: Crate| c.id());
    assert(more == ids.push(krate.id()));
    assert forall|id: CrateId| more.contains(id) == (ids.contains(id) || id == krate.id()) by {
        if ids.contains(id) {
            let i = ids.index_of(id);
            assert(more[i] == id);
        }
        assert(more[ids.len() as int] == krate.id());
    }
    assert(more.to_set() =~= ids.to_set().insert(krate.id()));
}

impl View for CrateSet {
    type V = Set<CrateId>;

    open spec fn view(&self) -> Set<CrateId> {
        ids_of(self.members())
    }
}

impl CrateSet {
    /// The crates, each as it was described when it was added first.
    pub closed spec fn members(self) -> Seq<Crate> {
        self.crates@
    }

    #[verifier::type_invariant]
    spec fn no_crate_twice(self) -> bool {
        crates_differ(self.crates@)
    }

    /// A set without crates.
    pub fn new() -> (res: Self)
        ensures
            res.members() == Seq::<Crate>::empty(),
            res@ == Set::<CrateId>::empty(),
    {
        let res = CrateSet { crates: Vec::new() };
        assert(res@ =~= Set::<CrateId>::empty());
        res
    }

    /// The crates, each once, in the order in which they were added first.
    pub fn crates(&self) -> (res: &Vec<Crate>)
        ensures
            res@ == self.members(),
            crates_differ(res@),
    {
        proof {
            use_type_invariant(self);
        }
        &self.crates
    }

    /// Whether the crate is in the set.
    pub fn contains(&self, krate: &Crate) -> (res: bool)
        ensures
            res == self@.contains(krate.id()),
    {
        let ghost ids = self.crates@.map_values(|c: Crate| c.id());
        let mut i: usize = 0;
        while i < self.crates.len()
            invariant
                i <= self.crates@.len(),
                ids == self.crates@.map_values(|c: Crate| c.id()),
                forall|j: int| 0 <= j < i ==> ids[j] != krate.id(),
            decreases self.crates@.len() - i,
        {
            if same_crate(&self.crates[i], krate) {
                assert(ids[i as int] == krate.id());
                return true;
            }
            i += 1;
        }
        false
    }

    /// Adds a crate, and tells whether it is new. A crate that is there already stays as it is.
    pub fn insert(&mut self, krate: Crate) -> (res: bool)
        ensures
            res == !old(self)@.contains(krate.id()),
            final(self)@ == old(self)@.insert(krate.id()),
            final(self).members() == if res {
                old(self).members().push(krate)
            } else {
                old(self).members()
            },
    {
        proof {
            use_type_invariant(&*self);
            lemma_ids_of_push(self.crates@, krate);
        }
        if self.contains(&krate) {
            assert(self@.insert(krate.id()) =~= self@);
            false
        } else {
            let ghost ids = self.crates@.map_values(|c: Crate| c.id());
            let mut crates: Vec<Crate> = Vec::new();
            std::mem::swap(&mut crates, &mut self.crates);
            assert forall|i: int| 0 <= i < crates@.len() implies (#[trigger] crates@[i]).id()
                != krate.id() by {
                assert(ids[i] == crates@[i].id());
            }
            crates.push(krate);
            self.crates = crates;
            true
        }
    }
}

/// The crates that each source file is part of.
pub type InputFiles = Table<PathKey, CrateSet>;

/// The same, with each set of crates given by its members.
pub open spec fn crates_by_file(files: Map<Seq<Seq<char>>, (Seq<char>, CrateSet)>) -> Map<
    Seq<Seq<char>>,
    (Seq<char>, Seq<Crate>),
> {
    files.map_values(|entry: (Seq<char>, CrateSet)| (entry.0, entry.1.members()))
}

/// `members` with `krate` among them.
pub open spec fn with_crate(members: Seq<Crate>, krate: Crate) -> Seq<Crate> {
    if ids_of(members).contains(krate.id()) {
        members
    } else {
        members.push(krate)
    }
}

/// `files` after the file `path` was recorded as part of `krate`.
pub open spec fn with_file(
    files: Map<Seq<Seq<char>>, (Seq<char>, Seq<Crate>)>,
    path: Seq<char>,
    krate: Crate,
) -> Map<Seq<Seq<char>>, (Seq<char>, Seq<Crate>)> {
    let id = path_identity(path);
    files.insert(
        id,
        if files.contains_key(id) {
            (files[id].0, with_crate(files[id].1, krate))
        } else {
            (path, seq![krate])
        },
    )
}

/// `files` after each of `paths` was recorded as part of `krate`.
pub open spec fn with_files(
    files: Map<Seq<Seq<char>>, (Seq<char>, Seq<Crate>)>,
    paths: Seq<Seq<char>>,
    krate: Crate,
) -> Map<Seq<Seq<char>>, (Seq<char>, Seq<Crate>)>
    decreases paths.len(),
{
    if paths.len() == 0 {
        files
    } else {
        with_file(with_files(files, paths.drop_last(), krate), paths.last(), krate)
    }
}

/// Records the file `path` as part of `krate`.
pub fn record_file(files: &mut InputFiles, path: String, krate: Crate)
    ensures
        crates_by_file(final(files)@) == with_file(crates_by_file(old(files)@), path@, krate),
{
    let ghost before = files@;
    let mut crates = match files.insert(path.clone(), CrateSet::new()) {
        Some(crates) => crates,
        None => CrateSet::new(),
    };
    crates.insert(krate);
    files.insert(path, crates);
    assert(crates_by_file(files@) =~= with_file(crates_by_file(before), path@, krate));
}

/// Records each of `paths` as part of `krate`.
pub fn record_files(files: &mut InputFiles, paths: Vec<String>, krate: &Crate)
    ensures
        crates_by_file(final(files)@) == with_files(
            crates_by_file(old(files)@),
            texts(paths@),
            *krate,
        ),
{
    let ghost before = crates_by_file(files@);
    let mut i: usize = 0;
    while i < paths.len()
        invariant
            i <= paths@.len(),
            crates_by_file(files@) == with_files(before, texts(paths@.take(i as int)), *krate),
        decreases paths@.len() - i,
    {
        proof {
            let done = texts(paths@.take(i + 1));
            assert(done.drop_last() == texts(paths@.take(i as int)));
            assert(done.last() == paths@[i as int]@);
        }
        record_file(files, paths[i].clone(), krate.clone());
        i += 1;
    }
    assert(paths@.take(i as int) == paths@);
}

/// Whether the file with the identity `file` is recorded as part of the crate `krate`.
pub open spec fn is_recorded(
    files: Map<Seq<Seq<char>>, (Seq<char>, Seq<Crate>)>,
    file: Seq<Seq<char>>,
    krate: CrateId,
) -> bool {
    files.contains_key(file) && ids_of(files[file].1).contains(krate)
}

/// The members of a set are those before and the one that was added.
proof fn lemma_with_crate(members: Seq<Crate>, krate: Crate)
    ensures
        ids_of(with_crate(members, krate)) == ids_of(members).insert(krate.id()),
        ids_of(seq![krate]) == set![krate.id()],
{
    lemma_ids_of_push(members, krate);
    assert(ids_of(members).contains(krate.id()) ==> ids_of(members).insert(krate.id())
        =~= ids_of(members));
    lemma_ids_of_push(Seq::empty(), krate);
    assert(Seq::<Crate>::empty().push(krate) =~= seq![krate]);
    assert(ids_of(Seq::empty()) =~= Set::empty());
}

/// Recording a file adds that file under that crate and nothing else; what was recorded before
/// stays.
pub proof fn law_recording_adds_one_file(
    files: Map<Seq<Seq<char>>, (Seq<char>, Seq<Crate>)>,
    path: Seq<char>,
    krate: Crate,
    file: Seq<Seq<char>>,
    other: CrateId,
)
    ensures
        is_recorded(with_file(files, path, krate), file, other) <==> is_recorded(files, file, other)
            || (file == path_identity(path) && other == krate.id()),
        files.contains_key(file) ==> with_file(files, path, krate)[file].0 == files[file].0,
{
    lemma_with_crate(
        if files.contains_key(path_identity(path)) {
            files[path_identity(path)].1
        } else {
            Seq::empty()
        },
        krate,
    );
}

/// After the files of a crate were recorded, the crate's files are those that it had before and
/// the recorded ones, and the files of other crates are as before.
pub proof fn law_recording_adds_all_files(
    files: Map<Seq<Seq<char>>, (Seq<char>, Seq<Crate>)>,
    paths: Seq<Seq<char>>,
    krate: Crate,
    file: Seq<Seq<char>>,
    other: CrateId,
)
    ensures
        is_recorded(with_files(files, paths, krate), file, other) <==> is_recorded(
            files,
            file,
            other,
        ) || (other == krate.id() && exists|i: int|
            0 <= i < paths.len() && path_identity(#[trigger] paths[i]) == file),
    decreases paths.len(),
{
    if paths.len() > 0 {
        let front = paths.drop_last();
        law_recording_adds_all_files(files, front, krate, file, other);
        law_recording_adds_one_file(
            with_files(files, front, krate),
            paths.last(),
            krate,
            file,
            other,
        );
        if exists|i: int| 0 <= i < front.len() && path_identity(#[trigger] front[i]) == file {
            let i = choose|i: int| 0 <= i < front.len() && path_identity(#[trigger] front[i]) == file;
            assert(paths[i] == front[i]);
        }
        if exists|i: int| 0 <= i < paths.len() && path_identity(#[trigger] paths[i]) == file {
            let i = choose|i: int| 0 <= i < paths.len() && path_identity(#[trigger] paths[i]) == file;
            assert(i < front.len() ==> front[i] == paths[i]);
        }
        assert(path_identity(paths[paths.len() - 1]) == path_identity(paths.last()));
    }
}

/// Recording a file a second time changes nothing.
pub proof fn law_recording_is_idempotent(
    files: Map<Seq<Seq<char>>, (Seq<char>, Seq<Crate>)>,
    path: Seq<char>,
    krate: Crate,
)
    ensures
        with_file(with_file(files, path, krate), path, krate) == with_file(files, path, krate),
{
    let id = path_identity(path);
    lemma_with_crate(
        if files.contains_key(id) {
            files[id].1
        } else {
            Seq::empty()
        },
        krate,
    );
    assert(with_file(with_file(files, path, krate), path, krate) =~= with_file(files, path, krate));
}

/// Which of two files is recorded first makes no difference to which files belong to which crate.
pub proof fn law_recording_order_does_not_matter(
    files: Map<Seq<Seq<char>>, (Seq<char>, Seq<Crate>)>,
    path1: Seq<char>,
    krate1: Crate,
    path2: Seq<char>,
    krate2: Crate,
    file: Seq<Seq<char>>,
    krate: CrateId,
)
    ensures
        is_recorded(with_file(with_file(files, path1, krate1), path2, krate2), file, krate)
            == is_recorded(with_file(with_file(files, path2, krate2), path1, krate1), file, krate),
{
    let one = with_file(files, path1, krate1);
    let two = with_file(files, path2, krate2);
    law_recording_adds_one_file(files, path1, krate1, file, krate);
    law_recording_adds_one_file(one, path2, krate2, file, krate);
    law_recording_adds_one_file(files, path2, krate2, file, krate);
    law_recording_adds_one_file(two, path1, krate1, file, krate);
}

/// Two descriptions are of the same crate if they agree in name, disambiguator and edition, and
/// either both have no source file or theirs are the same path.
pub proof fn law_same_crate(left: &Crate, right: &Crate, res: bool)
    requires
        call_ensures(same_crate, (left, right), res),
    ensures
        res <==> {
            &&& left.name@ == right.name@
            &&& left.disambiguator == right.disambiguator
            &&& left.edition == right.edition
            &&& left.src_path is Some <==> right.src_path is Some
            &&& left.src_path is Some ==> path_identity(left.src_path->0@) == path_identity(
                right.src_path->0@,
            )
        },
        res <==> left.id() == right.id(),
{
}

/// A copy of a crate has the same name, source file, disambiguator and edition.
pub proof fn law_cloned_crate(krate: &Crate, res: Crate)
    requires
        call_ensures(<Crate as Clone>::clone, (krate,), res),
    ensures
        res.name@ == krate.name@,
        res.src_path is Some <==> krate.src_path is Some,
        krate.src_path is Some ==> res.src_path->0@ == krate.src_path->0@,
        res.disambiguator == krate.disambiguator,
        res.edition == krate.edition,
{
}

/// A crate is in a set if one of the members is the same crate.
pub proof fn law_set_contains_its_members(set: &CrateSet, krate: &Crate, res: bool)
    requires
        call_ensures(CrateSet::contains, (set, krate), res),
    ensures
        res <==> exists|i: int|
            0 <= i < set.members().len() && (#[trigger] set.members()[i]).id() == krate.id(),
{
    lemma_ids_of(set.members(), krate.id());
}

/// The identities of `crates` are those of its members.
proof fn lemma_ids_of(crates: Seq<Crate>, id: CrateId)
    ensures
        ids_of(crates).contains(id) <==> exists|i: int|
            0 <= i < crates.len() && (#[trigger] crates[i]).id() == id,
{
    let ids = crates.map_values(|c: Crate| c.id());
    if ids_of(crates).contains(id) {
        let i = ids.index_of(id);
        assert(crates[i].id() == id);
    }
    if exists|i: int| 0 <= i < crates.len() && (#[trigger] crates[i]).id() == id {
        let i = choose|i: int| 0 <= i < crates.len() && (#[trigger] crates[i]).id() == id;
        assert(ids[i] == id);
    }
}

/// A crate that is not in the set becomes its last member and leaves the others as they are; one
/// that is there already changes nothing. The result tells which.
pub proof fn law_inserted_crate(set: &mut CrateSet, krate: Crate, res: bool)
    requires
        call_ensures(CrateSet::insert, (set, krate), res),
    ensures
        res <==> !(exists|i: int|
            0 <= i < old(set).members().len() && (#[trigger] old(set).members()[i]).id()
                == krate.id()),
        res ==> final(set).members() == old(set).members().push(krate),
        !res ==> final(set).members() == old(set).members(),
{
    lemma_ids_of(old(set).members(), krate.id());
}

/// Recording a file enters it once: a new file stands as it was written, with the crate as its only
/// one; a file that was there keeps its writing and its crates, and the crate comes last unless it
/// is among them. Every other file stays as it is.
pub proof fn law_recorded_file(
    files: &mut InputFiles,
    path: String,
    krate: Crate,
    other: Seq<Seq<char>>,
)
    requires
        call_ensures(record_file, (files, path, krate), ()),
    ensures
        ({
            let file = path_identity(path@);
            let before = old(files)@;
            let after = final(files)@;
            let is_there = before.contains_key(file) && exists|i: int|
                0 <= i < before[file].1.members().len() && (
                #[trigger] before[file].1.members()[i]).id() == krate.id();
            &&& after.contains_key(file)
            &&& !before.contains_key(file) ==> after[file].0 == path@ && after[file].1.members()
                == seq![krate]
            &&& before.contains_key(file) ==> after[file].0 == before[file].0
            &&& is_there ==> after[file].1.members() == before[file].1.members()
            &&& before.contains_key(file) && !is_there ==> after[file].1.members()
                == before[file].1.members().push(krate)
            &&& other != file ==> after.contains_key(other) == before.contains_key(other)
            &&& other != file && before.contains_key(other) ==> after[other].0 == before[other].0
                && after[other].1.members() == before[other].1.members()
        }),
{
    let file = path_identity(path@);
    let before = crates_by_file(old(files)@);
    let after = crates_by_file(final(files)@);
    assert(after == with_file(before, path@, krate));
    assert(after.contains_key(file) && final(files)@.contains_key(file));
    assert(after.contains_key(other) == final(files)@.contains_key(other));
    assert(before.contains_key(other) == old(files)@.contains_key(other));
    assert(before.contains_key(file) == old(files)@.contains_key(file));
    if before.contains_key(file) {
        lemma_ids_of(before[file].1, krate.id());
        assert(before[file].1 == old(files)@[file].1.members());
    }
    assert(after[file].1 == final(files)@[file].1.members());
    if other != file && before.contains_key(other) {
        assert(after[other] == before[other]);
        assert(before[other].1 == old(files)@[other].1.members());
        assert(after[other].1 == final(files)@[other].1.members());
    }
}

/// Recording files one after the other: none changes nothing, and a last one is recorded in what
/// recording the others gave.
pub proof fn law_recorded_one_by_one(
    files: Map<Seq<Seq<char>>, (Seq<char>, Seq<Crate>)>,
    paths: Seq<Seq<char>>,
    path: Seq<char>,
    krate: Crate,
)
    ensures
        with_files(files, Seq::empty(), krate) == files,
        with_files(files, paths.push(path), krate) == with_file(
            with_files(files, paths, krate),
            path,
            krate,
        ),
{
    assert(paths.push(path).drop_last() == paths);
}

/// After the files of a crate were recorded, each of them is there with the crate among its crates,
/// and what else is there was there before.
pub proof fn law_recorded_files(
    files: &mut InputFiles,
    paths: Vec<String>,
    krate: &Crate,
    file: Seq<Seq<char>>,
    other: CrateId,
)
    requires
        call_ensures(record_files, (files, paths, krate), ()),
    ensures
        (final(files)@.contains_key(file) && final(files)@[file].1@.contains(other)) <==> (old(
            files,
        )@.contains_key(file) && old(files)@[file].1@.contains(other)) || (other == krate.id()
            && exists|i: int|
            0 <= i < paths@.len() && path_identity((#[trigger] paths@[i])@) == file),
{
    let found = texts(paths@);
    law_recording_adds_all_files(crates_by_file(old(files)@), found, *krate, file, other);
    let before = crates_by_file(old(files)@);
    let after = crates_by_file(final(files)@);
    assert(before.contains_key(file) == old(files)@.contains_key(file));
    assert(after.contains_key(file) == final(files)@.contains_key(file));
    if exists|i: int| 0 <= i < found.len() && path_identity(#[trigger] found[i]) == file {
        let i = choose|i: int| 0 <= i < found.len() && path_identity(#[trigger] found[i]) == file;
        assert(path_identity(paths@[i]@) == file);
    }
    if exists|i: int| 0 <= i < paths@.len() && path_identity((#[trigger] paths@[i])@) == file {
        let i = choose|i: int| 0 <= i < paths@.len() && path_identity((#[trigger] paths@[i])@) == file;
        assert(path_identity(found[i]) == file);
    }
}

} // verus!
