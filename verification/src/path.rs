//! Paths, as text, and the path at which a source file is known.

use vstd::prelude::*;

verus! {

/// Whether `Path::is_absolute` holds of a path, on the platform that the library is compiled
/// for.
pub uninterp spec fn path_is_absolute(path: Seq<char>) -> bool;

/// The path that `Path::join` makes of a directory and a path, on the platform that the library
/// is compiled for.
pub uninterp spec fn joined_path(dir: Seq<char>, path: Seq<char>) -> Seq<char>;

/// What a path is compared by: its components, as `Path` compares them with `==` on the platform
/// that the library is compiled for. Paths that are written differently may have the same
/// identity.
pub uninterp spec fn path_identity(path: Seq<char>) -> Seq<Seq<char>>;

/// Asks `Path::is_absolute`, whose answer depends on the text of the path alone: on Unix an
/// absolute path starts with the root, on Windows it has a prefix as well.
#[verifier::external_body]
fn is_absolute(path: &str) -> (res: bool)
    ensures
        res == path_is_absolute(path@),
{
    std::path::Path::new(path).is_absolute()
}

/// Calls `Path::join`, whose result depends on the text of the two paths alone. Joined text is
/// text, so the conversion back always succeeds.
#[verifier::external_body]
fn join(dir: &str, path: &str) -> (res: String)
    ensures
        res@ == joined_path(dir@, path@),
{
    std::path::Path::new(dir).join(path).into_os_string().into_string().unwrap()
}

/// Compares with `==` of `Path`. `Path` is `Eq`, so this is an equivalence relation: two paths
/// are equal exactly when they have the same [`path_identity`].
#[verifier::external_body]
pub(crate) fn same_path(left: &str, right: &str) -> (res: bool)
    ensures
        res == (path_identity(left@) == path_identity(right@)),
{
    std::path::Path::new(left) == std::path::Path::new(right)
}

/// What a path is relative to.
pub enum PathBase<'a> {
    /// Nothing: it is absolute.
    Itself,
    /// This directory.
    Under(&'a str),
    /// A directory that is not known.
    Unknown,
}

/// The text of an optional string.
pub open spec fn text_of(text: Option<&str>) -> Option<Seq<char>> {
    match text {
        Some(t) => Some(t@),
        None => None,
    }
}

/// What a path is relative to. An absolute path stands for itself; any other is under `cwd` if
/// there is one, and otherwise under the current directory of the process.
pub fn path_base<'a>(
    cwd: Option<&'a str>,
    absolute: bool,
    current_dir: Option<&'a str>,
) -> (res: PathBase<'a>)
    ensures
        res is Itself <==> absolute,
        res is Unknown <==> !absolute && cwd is None && current_dir is None,
        !absolute && cwd is Some ==> res == PathBase::Under(cwd->0),
        !absolute && cwd is None && current_dir is Some ==> res == PathBase::Under(current_dir->0),
{
    if absolute {
        PathBase::Itself
    } else {
        match (cwd, current_dir) {
            (Some(dir), _) => PathBase::Under(dir),
            (None, Some(dir)) => PathBase::Under(dir),
            (None, None) => PathBase::Unknown,
        }
    }
}

/// Where `path` leads from the directory `dir`.
pub open spec fn path_from(dir: Seq<char>, path: Seq<char>) -> Seq<char> {
    if path_is_absolute(path) {
        path
    } else {
        joined_path(dir, path)
    }
}

/// Where `path` leads from `cwd`, or from `current_dir` if there is no `cwd`. There is no answer
/// for a relative path when neither directory is known.
pub open spec fn source_path(
    cwd: Option<Seq<char>>,
    path: Seq<char>,
    current_dir: Option<Seq<char>>,
) -> Option<Seq<char>> {
    match (cwd, current_dir) {
        (Some(dir), _) => Some(path_from(dir, path)),
        (None, Some(dir)) => Some(path_from(dir, path)),
        (None, None) => if path_is_absolute(path) {
            Some(path)
        } else {
            None
        },
    }
}

/// The path of a source file that was named as `path`: an absolute path stays as it is, and a
/// relative one is joined to `cwd`, or to `current_dir`, the current directory of the process
/// where it could be read, if there is no `cwd`.
pub fn src_path(cwd: Option<&str>, path: &str, current_dir: Option<&str>) -> (res: Option<String>)
    ensures
        res is Some <==> source_path(text_of(cwd), path@, text_of(current_dir)) is Some,
        res matches Some(p) ==> Some(p@) == source_path(text_of(cwd), path@, text_of(current_dir)),
{
    match path_base(cwd, is_absolute(path), current_dir) {
        PathBase::Itself => Some(path.to_owned()),
        PathBase::Under(dir) => Some(join(dir, path)),
        PathBase::Unknown => None,
    }
}

/// An absolute path is its own source path, wherever the compiler runs.
pub proof fn law_absolute_path_stays(
    cwd: Option<Seq<char>>,
    path: Seq<char>,
    current_dir: Option<Seq<char>>,
)
    ensures
        path_is_absolute(path) ==> source_path(cwd, path, current_dir) == Some(path),
{
}

/// Resolving a path that is resolved already changes nothing: where the first answer is an absolute
/// path, it is its own source path from any directory. (A Windows path such as `D:b` is not
/// absolute even when it is joined to an absolute directory.)
pub proof fn law_resolved_path_stays(
    cwd: Option<Seq<char>>,
    path: Seq<char>,
    current_dir: Option<Seq<char>>,
    other_cwd: Option<Seq<char>>,
    other_dir: Option<Seq<char>>,
)
    ensures
        source_path(cwd, path, current_dir) matches Some(resolved) ==> (path_is_absolute(resolved)
            ==> source_path(other_cwd, resolved, other_dir) == Some(resolved)),
{
}

/// With a `cwd` there always is a source path, and the current directory of the process has no
/// part in it.
pub proof fn law_cwd_decides(
    cwd: Seq<char>,
    path: Seq<char>,
    one_dir: Option<Seq<char>>,
    other_dir: Option<Seq<char>>,
)
    ensures
        source_path(Some(cwd), path, one_dir) is Some,
        source_path(Some(cwd), path, one_dir) == source_path(Some(cwd), path, other_dir),
{
}

/// The source path is found in three ways and no other: an absolute path is taken as it is, a
/// relative one is joined to the `cwd`, or, if there is none, to the current directory.
pub proof fn law_source_path(
    cwd: Option<&str>,
    path: &str,
    current_dir: Option<&str>,
    res: Option<String>,
)
    requires
        call_ensures(src_path, (cwd, path, current_dir), res),
    ensures
        path_is_absolute(path@) ==> res is Some && res->0@ == path@,
        !path_is_absolute(path@) && cwd is Some ==> res is Some && res->0@ == joined_path(
            cwd->0@,
            path@,
        ),
        !path_is_absolute(path@) && cwd is None && current_dir is Some ==> res is Some && res->0@
            == joined_path(current_dir->0@, path@),
        res is None <==> !path_is_absolute(path@) && cwd is None && current_dir is None,
{
}

} // verus!
