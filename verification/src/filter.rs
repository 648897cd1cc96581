//! The rule that picks out repositories which were never uploaded.

use vstd::prelude::*;
use vstd::string::*;
use crate::git::has_remote;
use crate::git::open_repository;
use crate::paths::file_name;
use crate::paths::opt_view;
use crate::paths::path_file_name;

verus! {

/// A predicate over values of type `T`.
pub trait Filter<T: ?Sized> {
    /// Whether `t` is kept.
    fn filter(&self, t: &T) -> bool;
}

/// What an attempt to open a directory as a git repository showed.
#[derive(Clone, Copy, Debug, PartialEq, Eq, Structural)]
pub enum RepoProbe {
    /// The directory did not open as a repository, for whatever reason.
    NotARepository,
    /// A repository with a remote named `origin`.
    HasOrigin,
    /// A repository without a remote named `origin`.
    NoOrigin,
}

/// The names that `list` holds.
pub open spec fn names_of(list: Seq<&str>) -> Set<Seq<char>> {
    Set::new(|name: Seq<char>| exists|i: int| 0 <= i < list.len() && (#[trigger] list[i])@ == name)
}

/// Keeps the directories that hold a git repository without an `origin`
/// remote, unless the directory's own name is one of a list of names to
/// pass over (build output, checkouts of dependencies).
pub struct AddToGithub {
    bad_path_components: Vec<String>,
}

/// The names that `names` holds.
pub open spec fn held(names: Seq<String>) -> Set<Seq<char>> {
    Set::new(|name: Seq<char>| exists|i: int| 0 <= i < names.len() && (#[trigger] names[i])@ == name)
}

/// No name occurs twice in `names`.
pub open spec fn distinct(names: Seq<String>) -> bool {
    forall|i: int, j: int|
        0 <= i < j < names.len() ==> (#[trigger] names[i])@ != (#[trigger] names[j])@
}

/// Whether `name` is one of `names`.
fn holds(names: &Vec<String>, name: &String) -> (found: bool)
    ensures
        found == held(names@).contains(name@),
{
    let mut at: usize = 0;
    while at < names.len()
        invariant
            at <= names.len(),
            forall|i: int| 0 <= i < at ==> (#[trigger] names[i])@ != name@,
        decreases names.len() - at,
    {
        if names[at] == *name {
            return true;
        }
        at = at + 1;
    }
    false
}

impl View for AddToGithub {
    type V = Set<Seq<char>>;

    /// The names that are passed over.
    closed spec fn view(&self) -> Set<Seq<char>> {
        held(self.bad_path_components@)
    }
}

impl AddToGithub {
    /// No name is held twice.
    #[verifier::type_invariant]
    spec fn well_formed(&self) -> bool {
        distinct(self.bad_path_components@)
    }

    /// Whether a directory with the final component `name` is passed over
    /// on account of its name. A path without a final component never is.
    pub open spec fn blocks(&self, name: Option<Seq<char>>) -> bool {
        match name {
            Some(n) => self@.contains(n),
            None => false,
        }
    }

    /// The rule: the name is not passed over, the directory opened as a
    /// repository, and the repository has no `origin` remote.
    pub open spec fn accepts(&self, name: Option<Seq<char>>, probe: RepoProbe) -> bool {
        !self.blocks(name) && probe == RepoProbe::NoOrigin
    }

    /// A filter that passes over the directories named in `list`.
    pub fn new(list: &[&str]) -> (made: Self)
        ensures
            made@ == names_of(list@),
    {
        let mut names: Vec<String> = Vec::new();
        let mut at: usize = 0;
        while at < list.len()
            invariant
                at <= list.len(),
                distinct(names@),
                forall|name: Seq<char>|
                    held(names@).contains(name) <==> exists|i: int|
                        0 <= i < at && (#[trigger] list[i])@ == name,
            decreases list.len() - at,
        {
            let name = String::from_str(list[at]);
            let ghost before = names@;
            if !holds(&names, &name) {
                names.push(name);
                assert forall|n: Seq<char>| held(names@).contains(n) <==> (held(before).contains(n)
                    || n == name@) by {
                    if held(names@).contains(n) {
                        let i = choose|i: int| 0 <= i < names.len() && (#[trigger] names[i])@ == n;
                        if i < before.len() {
                            assert(before[i]@ == n);
                        }
                    }
                    if held(before).contains(n) {
                        let i = choose|i: int| 0 <= i < before.len() && (#[trigger] before[i])@ == n;
                        assert(names[i]@ == n);
                    }
                    if n == name@ {
                        assert(names[before.len() as int]@ == n);
                    }
                }
                assert(distinct(names@)) by {
                    assert forall|i: int, j: int| 0 <= i < j < names.len() implies (
                    #[trigger] names[i])@ != (#[trigger] names[j])@ by {
                        if j < before.len() {
                            assert(before[i]@ != before[j]@);
                        } else {
                            assert(before[i]@ == names[i]@);
                        }
                    }
                }
            }
            assert forall|n: Seq<char>|
                held(names@).contains(n) <==> exists|i: int|
                    0 <= i < at + 1 && (#[trigger] list[i])@ == n by {
                assert(list[at as int]@ == name@);
                assert(held(names@).contains(n) <==> (held(before).contains(n) || n == name@));
                if held(before).contains(n) {
                    let i = choose|i: int| 0 <= i < at && (#[trigger] list[i])@ == n;
                    assert(0 <= i < at + 1 && list[i]@ == n);
                }
                if exists|i: int| 0 <= i < at + 1 && (#[trigger] list[i])@ == n {
                    let i = choose|i: int| 0 <= i < at + 1 && (#[trigger] list[i])@ == n;
                    if i < at {
                        assert(held(before).contains(n));
                    }
                }
            }
            at = at + 1;
        }
        let made = AddToGithub { bad_path_components: names };
        assert(made@ =~= names_of(list@));
        made
    }

    /// Whether a directory with the final component `name` is passed over
    /// on account of its name.
    pub fn is_blocked(&self, name: &Option<String>) -> (blocked: bool)
        ensures
            blocked == self.blocks(opt_view(*name)),
    {
        match name {
            Some(n) => holds(&self.bad_path_components, n),
            None => false,
        }
    }

    /// The verdict on a directory, given its final component and what
    /// opening it as a repository showed.
    pub fn qualifies(&self, name: &Option<String>, probe: RepoProbe) -> (keep: bool)
        ensures
            keep == self.accepts(opt_view(*name), probe),
    {
        if self.is_blocked(name) {
            false
        } else {
            match probe {
                RepoProbe::NoOrigin => true,
                _ => false,
            }
        }
    }
}

/// Opens `path` as a git repository and looks for a remote named `origin`.
/// Any failure to open counts as "not a repository".
pub fn probe_repository(path: &str) -> (probe: RepoProbe) {
    let origin = match open_repository(path) {
        Err(_) => None,
        Ok(repo) => Some(has_remote(&repo, origin_remote())),
    };
    probe_of(origin)
}

impl Filter<str> for AddToGithub {
    /// Whether the directory at `path` is a repository that was never
    /// uploaded. A directory that is passed over by name is not opened.
    fn filter(&self, path: &str) -> (keep: bool)
        ensures
            self.blocks(path_file_name(path@)) ==> !keep,
    {
        let name = file_name(path);
        if self.is_blocked(&name) {
            return false;
        }
        let probe = probe_repository(path);
        self.qualifies(&name, probe)
    }
}

/// A directory whose final component is on the list never qualifies,
/// whatever opening it as a repository shows.
pub proof fn lemma_blocked_name_rejected(filter: AddToGithub, name: Seq<char>, probe: RepoProbe)
    requires
        filter@.contains(name),
    ensures
        !filter.accepts(Some(name), probe),
{
}

/// A directory that does not open as a repository never qualifies.
pub proof fn lemma_non_repository_rejected(filter: AddToGithub, name: Option<Seq<char>>)
    ensures
        !filter.accepts(name, RepoProbe::NotARepository),
{
}

/// A repository with an `origin` remote never qualifies; one without
/// qualifies exactly when its name is not on the list.
pub proof fn lemma_origin_decides(filter: AddToGithub, name: Option<Seq<char>>)
    ensures
        !filter.accepts(name, RepoProbe::HasOrigin),
        filter.accepts(name, RepoProbe::NoOrigin) == !filter.blocks(name),
{
}

/// What a probe shows, given what was found: `None` where the directory
/// did not open as a repository, else whether the repository has a remote
/// named `origin`.
pub open spec fn probe_shown(origin: Option<bool>) -> RepoProbe {
    match origin {
        None => RepoProbe::NotARepository,
        Some(true) => RepoProbe::HasOrigin,
        Some(false) => RepoProbe::NoOrigin,
    }
}

/// What a probe shows, given what was found: `None` where the directory
/// did not open as a repository, else whether the repository has a remote
/// named `origin`.
pub fn probe_of(origin: Option<bool>) -> (probe: RepoProbe)
    ensures
        probe == probe_shown(origin),
{
    match origin {
        None => RepoProbe::NotARepository,
        Some(true) => RepoProbe::HasOrigin,
        Some(false) => RepoProbe::NoOrigin,
    }
}

/// The name of the remote whose presence shows that a repository was
/// uploaded.
pub fn origin_remote() -> (name: &'static str)
    ensures
        name@ == "origin"@,
{
    "origin"
}

} // verus!
