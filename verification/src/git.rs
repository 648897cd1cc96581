//! The calls into `git2`. What a repository holds is read from disk, so
//! none of these calls has a result that its arguments determine: the
//! contracts here claim nothing of what comes back, and the functions that
//! use them are proved for every outcome.

use vstd::prelude::*;

verus! {

#[verifier::external_type_specification]
#[verifier::external_body]
pub struct ExRepository(git2::Repository);

#[verifier::external_type_specification]
#[verifier::external_body]
pub struct ExGitError(git2::Error);

#[verifier::external_type_specification]
#[verifier::external_body]
pub struct ExOid(git2::Oid);

#[verifier::external_type_specification]
#[verifier::external_body]
pub struct ExRevwalk<'repo>(git2::Revwalk<'repo>);

/// Calls `git2::Repository::open` on `path`. Nothing is claimed of the
/// result: whether the directory opens depends on what is on disk.
#[verifier::external_body]
pub(crate) fn open_repository(path: &str) -> (opened: Result<git2::Repository, git2::Error>) {
    git2::Repository::open(path)
}

/// Calls `git2::Repository::find_remote` with `name` and says whether a
/// remote came back. Nothing is claimed of the answer: it depends on the
/// repository's configuration on disk.
#[verifier::external_body]
pub(crate) fn has_remote(repo: &git2::Repository, name: &str) -> (found: bool) {
    repo.find_remote(name).is_ok()
}

/// Calls `git2::Error::message` and copies the text. Nothing is claimed of
/// the text.
#[verifier::external_body]
pub(crate) fn error_message(error: &git2::Error) -> (text: String) {
    error.message().to_owned()
}

/// Calls `git2::Repository::path` and gives the path as text, as it would
/// be displayed. Nothing is claimed of the text.
#[verifier::external_body]
pub(crate) fn repository_path(repo: &git2::Repository) -> (path: String) {
    repo.path().display().to_string()
}

/// Calls `git2::Repository::find_branch` for the local branch `name` and,
/// through `git2::Branch::get` and `git2::Reference::target`, gives the
/// commit that the branch points to directly, if it does. Nothing is
/// claimed of the result.
#[verifier::external_body]
pub(crate) fn branch_tip(repo: &git2::Repository, name: &str) -> (tip: Result<
    Option<git2::Oid>,
    git2::Error,
>) {
    repo.find_branch(name, git2::BranchType::Local).map(|branch| branch.get().target())
}

/// Calls `git2::Repository::revwalk`. Nothing is claimed of the result.
#[verifier::external_body]
pub(crate) fn new_walk<'repo>(repo: &'repo git2::Repository) -> (walk: Result<
    git2::Revwalk<'repo>,
    git2::Error,
>) {
    repo.revwalk()
}

/// Calls `git2::Revwalk::push` with `tip`. Nothing is claimed of the walk
/// afterwards, nor of the result.
#[verifier::external_body]
pub(crate) fn push_tip<'repo>(walk: &mut git2::Revwalk<'repo>, tip: git2::Oid) -> (pushed: Result<
    (),
    git2::Error,
>) {
    walk.push(tip)
}

/// Calls `next` on a `git2::Revwalk`. Nothing is claimed of the walk
/// afterwards, nor of the result: in particular not that the walk ever ends.
#[verifier::external_body]
pub(crate) fn next_commit<'repo>(walk: &mut git2::Revwalk<'repo>) -> (step: Option<
    Result<git2::Oid, git2::Error>,
>) {
    walk.next()
}

/// Calls `git2::Repository::find_commit` for `id` and, through
/// `git2::Commit::time` and `git2::Time::seconds`, gives the commit's time
/// in seconds since the epoch. Nothing is claimed of the result.
#[verifier::external_body]
pub(crate) fn commit_seconds(repo: &git2::Repository, id: git2::Oid) -> (seconds: Result<
    i64,
    git2::Error,
>) {
    repo.find_commit(id).map(|commit| commit.time().seconds())
}

} // verus!
