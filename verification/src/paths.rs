//! Display paths: a repository's location relative to the directory where
//! the walk started.
//!
//! Paths are held as strings. Splitting a path into components is left to
//! `async_std::path::Path`; the three queries used here are named below and
//! the rule that combines them is stated and proved over those names.

use vstd::prelude::*;
use vstd::string::*;

verus! {

/// The final component of `path` as `async_std::path::Path::file_name` gives
/// it, or `None` where the path has none (it ends in `..` or is a root).
pub uninterp spec fn path_file_name(path: Seq<char>) -> Option<Seq<char>>;

/// `path` without its final component as `async_std::path::Path::parent`
/// gives it, or `None` where the path ends in a root or is empty.
pub uninterp spec fn path_parent(path: Seq<char>) -> Option<Seq<char>>;

/// What is left of `path` below `base` as
/// `async_std::path::Path::strip_prefix` gives it, or `None` where `base` is
/// not a prefix of `path`, component by component.
pub uninterp spec fn path_strip_prefix(path: Seq<char>, base: Seq<char>) -> Option<Seq<char>>;

/// The view of an optional string.
pub open spec fn opt_view(s: Option<String>) -> Option<Seq<char>> {
    match s {
        Some(text) => Some(text@),
        None => None,
    }
}

/// The name of the directory in which git keeps a repository's metadata.
pub open spec fn metadata_dir_name() -> Seq<char> {
    ".git"@
}

/// The directory that a path stands for, given its final component and its
/// parent: the parent where the final component is the metadata directory,
/// else the path itself.
pub open spec fn dir_of(
    path: Seq<char>,
    name: Option<Seq<char>>,
    above: Option<Seq<char>>,
) -> Option<Seq<char>> {
    if name == Some(metadata_dir_name()) {
        above
    } else {
        Some(path)
    }
}

/// The directory that a repository path stands for: the parent of a path
/// whose final component is the metadata directory, else the path itself.
pub open spec fn repo_dir(path: Seq<char>) -> Option<Seq<char>> {
    dir_of(path, path_file_name(path), path_parent(path))
}

/// The display form of `path` relative to `base`, where there is one.
pub open spec fn simplified(path: Seq<char>, base: Seq<char>) -> Option<Seq<char>> {
    match repo_dir(path) {
        Some(dir) => path_strip_prefix(dir, base),
        None => None,
    }
}

/// Calls `async_std::path::Path::file_name` on `path`. The result is the
/// final component, named by `path_file_name`; nothing more is claimed of it.
#[verifier::external_body]
pub(crate) fn file_name(path: &str) -> (name: Option<String>)
    ensures
        opt_view(name) == path_file_name(path@),
{
    async_std::path::Path::new(path).file_name().and_then(|f| f.to_str()).map(|f| f.to_owned())
}

/// Calls `async_std::path::Path::parent` on `path`. The result is the path
/// without its final component, named by `path_parent`.
#[verifier::external_body]
pub(crate) fn parent(path: &str) -> (dir: Option<String>)
    ensures
        opt_view(dir) == path_parent(path@),
{
    async_std::path::Path::new(path).parent().and_then(|p| p.to_str()).map(|p| p.to_owned())
}

/// Calls `async_std::path::Path::strip_prefix` on `path` with `base`. The
/// result is the remainder below `base`, named by `path_strip_prefix`, and
/// `None` stands for the error that the call returns on a path outside `base`.
#[verifier::external_body]
pub(crate) fn strip_prefix(path: &str, base: &str) -> (rest: Option<String>)
    ensures
        opt_view(rest) == path_strip_prefix(path@, base@),
{
    let base = async_std::path::Path::new(base);
    async_std::path::Path::new(path).strip_prefix(base).ok().map(|p| p.display().to_string())
}

/// The directory to show for a repository path: for `/x/y/.git` the
/// directory `/x/y`, for any other path the path itself.
pub fn repository_dir(path: &str) -> (dir: Option<String>)
    ensures
        opt_view(dir) == repo_dir(path@),
{
    let name = file_name(path);
    let above = parent(path);
    dir_given(path, &name, above)
}

/// The directory to show for `path`, given its final component `name` and
/// its parent `above`, each where it has one: the parent where the final
/// component is `.git`, else the path itself.
pub fn dir_given(path: &str, name: &Option<String>, above: Option<String>) -> (dir: Option<String>)
    ensures
        opt_view(dir) == dir_of(path@, opt_view(*name), opt_view(above)),
{
    let metadata = String::from_str(".git");
    let is_metadata = match name {
        Some(name) => *name == metadata,
        None => false,
    };
    if is_metadata {
        above
    } else {
        Some(String::from_str(path))
    }
}

/// Turns an absolute repository path into the form shown to the user: the
/// metadata directory, where the path ends in it, is dropped, and the
/// remainder is given relative to `base`.
///
/// `path` must lie under `base`; `try_simplified_repo_path` makes that test.
pub fn simplified_repo_path(path: &str, base: &str) -> (shown: String)
    requires
        simplified(path@, base@).is_some(),
    ensures
        Some(shown@) == simplified(path@, base@),
{
    let dir = repository_dir(path);
    let rest = match dir {
        Some(dir) => strip_prefix(dir.as_str(), base),
        None => None,
    };
    rest.unwrap()
}

/// As `simplified_repo_path`, for any two paths: `None` where `path` does
/// not lie under `base`.
pub fn try_simplified_repo_path(path: &str, base: &str) -> (shown: Option<String>)
    ensures
        opt_view(shown) == simplified(path@, base@),
{
    let inside = match repository_dir(path) {
        Some(dir) => strip_prefix(dir.as_str(), base).is_some(),
        None => false,
    };
    if inside {
        Some(simplified_repo_path(path, base))
    } else {
        None
    }
}

/// A path that ends in the metadata directory is shown as its parent is:
/// the trailing segment is dropped and the result is otherwise the same.
pub proof fn lemma_metadata_segment_dropped(path: Seq<char>, dir: Seq<char>, base: Seq<char>)
    requires
        path_file_name(path) == Some(metadata_dir_name()),
        path_parent(path) == Some(dir),
        path_file_name(dir) != Some(metadata_dir_name()),
    ensures
        simplified(path, base) == simplified(dir, base),
        simplified(path, base) == path_strip_prefix(dir, base),
{
}

/// A path that does not end in the metadata directory is shown as what is
/// left of it below the base.
pub proof fn lemma_plain_path_kept(path: Seq<char>, base: Seq<char>)
    requires
        path_file_name(path) != Some(metadata_dir_name()),
    ensures
        simplified(path, base) == path_strip_prefix(path, base),
{
}

} // verus!
