use vstd::prelude::*;
use crate::kind::RepositoryKind;

verus! {

/// The components of a path, outermost first.
pub open spec fn path_view(p: Seq<String>) -> Seq<Seq<char>> {
    p.map_values(|s: String| s@)
}

/// The working directory of a repository whose git directory is `git_dir`: a bare
/// repository's is the git directory itself, any other's is its parent.
pub open spec fn spec_workdir(git_dir: Seq<Seq<char>>, kind: RepositoryKind) -> Seq<Seq<char>> {
    if kind is Bare {
        git_dir
    } else {
        git_dir.drop_last()
    }
}

/// A discovered repository: its working directory and its kind.
pub struct RepoPath {
    pub path: Vec<String>,
    pub kind: RepositoryKind,
}

impl View for RepoPath {
    type V = (Seq<Seq<char>>, RepositoryKind);

    open spec fn view(&self) -> Self::V {
        (path_view(self.path@), self.kind)
    }
}

impl From<(Vec<String>, RepositoryKind)> for RepoPath {
    fn from(value: (Vec<String>, RepositoryKind)) -> (r: RepoPath)
        ensures
            r == (RepoPath { path: value.0, kind: value.1 }),
    {
        let (path, kind) = value;
        RepoPath { path, kind }
    }
}

impl vstd::std_specs::convert::FromSpecImpl<(Vec<String>, RepositoryKind)> for RepoPath {
    open spec fn obeys_from_spec() -> bool {
        true
    }

    open spec fn from_spec(value: (Vec<String>, RepositoryKind)) -> RepoPath {
        RepoPath { path: value.0, kind: value.1 }
    }
}

/// The first `n` components of `p`.
fn path_prefix(p: &Vec<String>, n: usize) -> (r: Vec<String>)
    requires
        n <= p.len(),
    ensures
        path_view(r@) == path_view(p@).take(n as int),
{
    let mut r: Vec<String> = Vec::new();
    let mut i: usize = 0;
    while i < n
        invariant
            i <= n <= p.len(),
            r.len() == i,
            forall|j: int| 0 <= j < i ==> r@[j]@ == p@[j]@,
        decreases n - i,
    {
        r.push(p[i].clone());
        i = i + 1;
    }
    assert(path_view(r@) =~= path_view(p@).take(n as int));
    r
}

/// Turns the path of a repository's git directory into the path of its working directory.
pub fn resolve_workdir(git_dir: &Vec<String>, kind: RepositoryKind) -> (r: Vec<String>)
    requires
        kind is Bare || git_dir.len() > 0,
    ensures
        path_view(r@) == spec_workdir(path_view(git_dir@), kind),
{
    if kind.is_bare() {
        let r = path_prefix(git_dir, git_dir.len());
        assert(path_view(git_dir@).take(git_dir.len() as int) =~= path_view(git_dir@));
        r
    } else {
        let r = path_prefix(git_dir, git_dir.len() - 1);
        assert(path_view(git_dir@).take(git_dir.len() - 1) =~= path_view(git_dir@).drop_last());
        r
    }
}

/// Whether two paths have the same components.
pub fn same_path(a: &Vec<String>, b: &Vec<String>) -> (r: bool)
    ensures
        r == (path_view(a@) == path_view(b@)),
{
    if a.len() != b.len() {
        return false;
    }
    let mut i: usize = 0;
    while i < a.len()
        invariant
            i <= a.len() == b.len(),
            forall|j: int| 0 <= j < i ==> a@[j]@ == b@[j]@,
        decreases a.len() - i,
    {
        if a[i] != b[i] {
            assert(path_view(a@)[i as int] != path_view(b@)[i as int]);
            return false;
        }
        i = i + 1;
    }
    assert(path_view(a@) =~= path_view(b@));
    true
}

} // verus!
