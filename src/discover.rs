use vstd::prelude::*;
use crate::kind::RepositoryKind;
use crate::workdir::{RepoPath, path_view, spec_workdir, resolve_workdir, same_path};

verus! {

/// A repository marker that the walk reported: the path of the git directory (or git
/// file) and its classification.
pub struct Marker {
    pub git_dir: Vec<String>,
    pub kind: RepositoryKind,
}

/// The outcome of a discovery run.
pub struct Discovery {
    /// The repositories found, in walk order.
    pub repositories: Vec<RepoPath>,
    /// Whether the walk was cancelled before it was complete.
    pub interrupted: bool,
}

pub open spec fn repos_view(v: Seq<RepoPath>) -> Seq<(Seq<Seq<char>>, RepositoryKind)> {
    v.map_values(|r: RepoPath| r@)
}

/// Whether the entry at `i` has a working directory that an earlier entry already has.
pub open spec fn seen_before(s: Seq<(Seq<Seq<char>>, RepositoryKind)>, i: int) -> bool {
    exists|j: int| 0 <= j < i && s[j].0 == #[trigger] s[i].0
}

/// The entries of `s` whose working directory no earlier entry has, in order.
pub open spec fn spec_dedup(s: Seq<(Seq<Seq<char>>, RepositoryKind)>) -> Seq<(Seq<Seq<char>>, RepositoryKind)>
    decreases s.len(),
{
    if s.len() == 0 {
        s
    } else {
        let d = spec_dedup(s.drop_last());
        if seen_before(s, s.len() - 1) {
            d
        } else {
            d.push(s.last())
        }
    }
}

pub open spec fn no_duplicate_paths(s: Seq<(Seq<Seq<char>>, RepositoryKind)>) -> bool {
    forall|i: int, j: int| 0 <= i < j < s.len() ==> s[i].0 != s[j].0
}

pub open spec fn marker_workdir(m: Marker) -> (Seq<Seq<char>>, RepositoryKind) {
    (spec_workdir(path_view(m.git_dir@), m.kind), m.kind)
}

/// Whether each marker can be resolved: only a bare git directory may be a root path.
pub open spec fn resolvable(ms: Seq<Marker>) -> bool {
    forall|i: int| 0 <= i < ms.len() ==> (#[trigger] ms[i]).kind is Bare || ms[i].git_dir.len() > 0
}

/// The repositories that a sequence of markers stands for: each marker's working
/// directory and kind, in order, the later of two equal working directories left out.
pub open spec fn spec_discover(ms: Seq<Marker>) -> Seq<(Seq<Seq<char>>, RepositoryKind)> {
    spec_dedup(ms.map_values(|m: Marker| marker_workdir(m)))
}

proof fn lemma_dedup_from(s: Seq<(Seq<Seq<char>>, RepositoryKind)>)
    ensures
        forall|k: int| 0 <= k < spec_dedup(s).len() ==> exists|j: int| 0 <= j < s.len() && #[trigger] spec_dedup(s)[k] == s[j],
    decreases s.len(),
{
    if s.len() > 0 {
        let t = s.drop_last();
        lemma_dedup_from(t);
        let d = spec_dedup(t);
        let e = spec_dedup(s);
        assert forall|k: int| 0 <= k < e.len() implies exists|j: int| 0 <= j < s.len() && #[trigger] e[k] == s[j] by {
            if k < d.len() {
                assert(e[k] == d[k]);
                let j = choose|j: int| 0 <= j < t.len() && d[k] == t[j];
                assert(e[k] == s[j]);
            } else {
                assert(e[k] == s[s.len() - 1]);
            }
        }
    }
}

proof fn lemma_dedup_covers(s: Seq<(Seq<Seq<char>>, RepositoryKind)>)
    ensures
        forall|j: int| 0 <= j < s.len() ==> exists|k: int| 0 <= k < spec_dedup(s).len() && (#[trigger] spec_dedup(s)[k]).0 == (#[trigger] s[j]).0,
    decreases s.len(),
{
    if s.len() > 0 {
        let t = s.drop_last();
        lemma_dedup_covers(t);
        let d = spec_dedup(t);
        let e = spec_dedup(s);
        let n = s.len() - 1;
        assert forall|j: int| 0 <= j < s.len() implies exists|k: int| 0 <= k < e.len() && (#[trigger] e[k]).0 == (#[trigger] s[j]).0 by {
            let i = if j < n {
                j
            } else if seen_before(s, n) {
                choose|i: int| 0 <= i < n && s[i].0 == #[trigger] s[n].0
            } else {
                n
            };
            if i < n {
                assert(s[i] == t[i]);
                let k = choose|k: int| 0 <= k < d.len() && (#[trigger] d[k]).0 == t[i].0;
                assert(e[k] == d[k]);
            } else {
                assert(e[d.len() as int] == s[n]);
            }
        }
    }
}

proof fn lemma_dedup_distinct(s: Seq<(Seq<Seq<char>>, RepositoryKind)>)
    ensures
        no_duplicate_paths(spec_dedup(s)),
    decreases s.len(),
{
    if s.len() > 0 {
        let t = s.drop_last();
        lemma_dedup_distinct(t);
        lemma_dedup_from(t);
        let d = spec_dedup(t);
        let n = s.len() - 1;
        if !seen_before(s, n) {
            let e = spec_dedup(s);
            assert forall|a: int, b: int| 0 <= a < b < e.len() implies e[a].0 != e[b].0 by {
                assert(e[a] == d[a]);
                if b == d.len() {
                    let j = choose|j: int| 0 <= j < t.len() && d[a] == t[j];
                    assert(t[j] == s[j]);
                    assert(e[b] == s[n]);
                } else {
                    assert(e[b] == d[b]);
                }
            }
        }
    }
}

/// The result of removing repeated working directories has none, keeps only entries of
/// its input, and keeps a working directory of each of them.
pub proof fn lemma_dedup(s: Seq<(Seq<Seq<char>>, RepositoryKind)>)
    ensures
        no_duplicate_paths(spec_dedup(s)),
        forall|k: int| 0 <= k < spec_dedup(s).len() ==> exists|j: int| 0 <= j < s.len() && #[trigger] spec_dedup(s)[k] == s[j],
        forall|j: int| 0 <= j < s.len() ==> exists|k: int| 0 <= k < spec_dedup(s).len() && (#[trigger] spec_dedup(s)[k]).0 == (#[trigger] s[j]).0,
{
    lemma_dedup_from(s);
    lemma_dedup_covers(s);
    lemma_dedup_distinct(s);
}

/// Whether one of `repos` has the working directory `p`.
fn contains_path(repos: &Vec<RepoPath>, p: &Vec<String>) -> (r: bool)
    ensures
        r == exists|k: int| 0 <= k < repos.len() && (#[trigger] repos@[k])@.0 == path_view(p@),
{
    let mut i: usize = 0;
    while i < repos.len()
        invariant
            i <= repos.len(),
            forall|k: int| 0 <= k < i ==> (#[trigger] repos@[k])@.0 != path_view(p@),
        decreases repos.len() - i,
    {
        if same_path(&repos[i].path, p) {
            return true;
        }
        i = i + 1;
    }
    false
}

/// Resolves the working directory of each marker the walk reported and keeps the first
/// repository of each working directory, in walk order.
pub fn collect_repositories(markers: &Vec<Marker>) -> (r: Vec<RepoPath>)
    requires
        resolvable(markers@),
    ensures
        repos_view(r@) == spec_discover(markers@),
        no_duplicate_paths(repos_view(r@)),
{
    let ghost s = markers@.map_values(|m: Marker| marker_workdir(m));
    let mut r: Vec<RepoPath> = Vec::new();
    let mut i: usize = 0;
    while i < markers.len()
        invariant
            i <= markers.len(),
            resolvable(markers@),
            s == markers@.map_values(|m: Marker| marker_workdir(m)),
            repos_view(r@) == spec_dedup(s.take(i as int)),
        decreases markers.len() - i,
    {
        let m = &markers[i];
        assert(m.kind is Bare || m.git_dir.len() > 0);
        let wd = resolve_workdir(&m.git_dir, m.kind);
        let seen = contains_path(&r, &wd);
        proof {
            let t = s.take(i + 1);
            assert(t.drop_last() =~= s.take(i as int));
            assert(t[i as int] == s[i as int]);
            lemma_dedup(s.take(i as int));
            let d = spec_dedup(s.take(i as int));
            if seen {
                let k = choose|k: int| 0 <= k < r.len() && (#[trigger] r@[k])@.0 == path_view(wd@);
                assert(repos_view(r@)[k] == r@[k]@);
                let j = choose|j: int| 0 <= j < s.take(i as int).len() && #[trigger] d[k] == s.take(i as int)[j];
                assert(t[j] == s.take(i as int)[j]);
                assert(seen_before(t, i as int));
            } else {
                assert forall|j: int| 0 <= j < i implies t[j].0 != #[trigger] t[i as int].0 by {
                    assert(t[j] == s.take(i as int)[j]);
                    let k = choose|k: int| 0 <= k < d.len() && (#[trigger] d[k]).0 == s.take(i as int)[j].0;
                    assert(repos_view(r@)[k] == r@[k]@);
                }
            }
        }
        if !seen {
            let ghost before = r@;
            r.push(RepoPath { path: wd, kind: m.kind });
            assert(repos_view(r@) =~= repos_view(before).push(s[i as int]));
        }
        i = i + 1;
    }
    assert(s.take(markers.len() as int) =~= s);
    proof {
        lemma_dedup(s);
    }
    r
}

/// Resolves and collects what the walk reported, and whether it was cut short.
pub fn finish_discovery(markers: &Vec<Marker>, interrupted: bool) -> (r: Discovery)
    requires
        resolvable(markers@),
    ensures
        repos_view(r.repositories@) == spec_discover(markers@),
        r.interrupted == interrupted,
{
    Discovery { repositories: collect_repositories(markers), interrupted }
}

} // verus!
