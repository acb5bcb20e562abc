use vstd::prelude::*;
use crate::kind::RepositoryKind;
use crate::classify::{EntryFacts, marker_name, spec_classify};
use crate::prune::{spec_plan, any_bare, any_marker, restricts};
use crate::workdir::spec_workdir;
use crate::discover::{Marker, spec_discover, no_duplicate_paths, lemma_dedup};

verus! {

/// No two discovered repositories share a working directory.
pub proof fn lemma_no_duplicate_workdirs(ms: Seq<Marker>)
    ensures
        no_duplicate_paths(spec_discover(ms)),
{
    lemma_dedup(ms.map_values(|m: Marker| crate::discover::marker_workdir(m)));
}

/// The plan of a listing does not depend on the order in which its entries come or are
/// classified: two listings with the same classifications, in any order, plan each
/// entry alike.
pub proof fn lemma_plan_order_independent(
    a: Seq<Option<RepositoryKind>>,
    b: Seq<Option<RepositoryKind>>,
    cancelled: bool,
)
    requires
        forall|x: Option<RepositoryKind>| a.contains(x) <==> b.contains(x),
    ensures
        forall|i: int, j: int|
            0 <= i < a.len() && 0 <= j < b.len() && a[i] == b[j] ==> spec_plan(a, cancelled, i) == spec_plan(b, cancelled, j),
{
    assert(any_marker(a) == any_marker(b)) by {
        if any_marker(a) {
            let i = choose|i: int| 0 <= i < a.len() && (#[trigger] a[i]) is Some;
            assert(a.contains(a[i]));
        }
        if any_marker(b) {
            let i = choose|i: int| 0 <= i < b.len() && (#[trigger] b[i]) is Some;
            assert(b.contains(b[i]));
        }
    }
    assert(any_bare(a) == any_bare(b)) by {
        if any_bare(a) {
            let i = choose|i: int| 0 <= i < a.len() && #[trigger] a[i] == Some(RepositoryKind::Bare);
            assert(a.contains(a[i]));
        }
        if any_bare(b) {
            let i = choose|i: int| 0 <= i < b.len() && #[trigger] b[i] == Some(RepositoryKind::Bare);
            assert(b.contains(b[i]));
        }
    }
}

/// A bare repository among a listing prunes none of its siblings: every entry stays,
/// and every entry that is no marker is descended into unless the walk was cancelled.
pub proof fn lemma_bare_keeps_siblings(kinds: Seq<Option<RepositoryKind>>, cancelled: bool)
    requires
        any_bare(kinds),
    ensures
        forall|i: int| 0 <= i < kinds.len() ==> (#[trigger] spec_plan(kinds, cancelled, i)).keep
            && spec_plan(kinds, cancelled, i).descend == (kinds[i] is None && !cancelled),
{
}

/// A worktree marker without a bare one beside it prunes the listing: only markers stay,
/// and nothing in that directory is descended into.
pub proof fn lemma_worktree_prunes_siblings(kinds: Seq<Option<RepositoryKind>>, cancelled: bool, j: int, linked: bool)
    requires
        0 <= j < kinds.len(),
        kinds[j] == Some(RepositoryKind::WorkTree { linked }),
        !any_bare(kinds),
    ensures
        restricts(kinds),
        forall|i: int| 0 <= i < kinds.len() ==> (#[trigger] spec_plan(kinds, cancelled, i)).keep == kinds[i] is Some
            && !spec_plan(kinds, cancelled, i).descend,
{
    assert(any_marker(kinds)) by {
        assert(kinds[j] is Some);
    }
}

/// A `.git` that is a file is a linked worktree whatever it holds, and its working
/// directory is the directory that holds it.
pub proof fn lemma_git_file_is_linked_worktree(f: EntryFacts, dir: Seq<Seq<char>>)
    requires
        f.name@ == marker_name(),
        !f.is_dir,
    ensures
        spec_classify(f) == Some(RepositoryKind::WorkTree { linked: true }),
        spec_workdir(dir.push(f.name@), RepositoryKind::WorkTree { linked: true }) == dir,
{
    assert(dir.push(f.name@).drop_last() =~= dir);
}

/// A bare repository's working directory is its own path; that of a repository whose
/// marker is `P/.git` is `P`.
pub proof fn lemma_workdir_round_trip(p: Seq<Seq<char>>, linked: bool)
    ensures
        spec_workdir(p, RepositoryKind::Bare) == p,
        spec_workdir(p.push(marker_name()), RepositoryKind::WorkTree { linked }) == p,
{
    assert(p.push(marker_name()).drop_last() =~= p);
}

} // verus!
