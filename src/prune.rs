use vstd::prelude::*;
use crate::kind::RepositoryKind;
use crate::classify::{EntryFacts, spec_classify, classify};

verus! {

/// What the walk does with one entry of a directory listing.
#[derive(PartialEq, Eq, Structural, Clone, Copy, Debug)]
pub struct SiblingPlan {
    /// The entry's classification.
    pub kind: Option<RepositoryKind>,
    /// Whether the entry stays in the walk's output.
    pub keep: bool,
    /// Whether the walk lists the entry's children.
    pub descend: bool,
}

pub open spec fn any_marker(kinds: Seq<Option<RepositoryKind>>) -> bool {
    exists|i: int| 0 <= i < kinds.len() && (#[trigger] kinds[i]) is Some
}

pub open spec fn any_bare(kinds: Seq<Option<RepositoryKind>>) -> bool {
    exists|i: int| 0 <= i < kinds.len() && #[trigger] kinds[i] == Some(RepositoryKind::Bare)
}

/// A listing is restricted to its markers when it holds one and none of them is bare.
pub open spec fn restricts(kinds: Seq<Option<RepositoryKind>>) -> bool {
    any_marker(kinds) && !any_bare(kinds)
}

/// The plan for entry `i` of a listing whose classifications are `kinds`: a restricted
/// listing keeps its markers alone, a marker is never descended into, and nothing is
/// descended into once the walk is cancelled.
pub open spec fn spec_plan(kinds: Seq<Option<RepositoryKind>>, cancelled: bool, i: int) -> SiblingPlan {
    let keep = !restricts(kinds) || kinds[i] is Some;
    SiblingPlan { kind: kinds[i], keep, descend: keep && kinds[i] is None && !cancelled }
}

pub open spec fn classify_all(entries: Seq<EntryFacts>) -> Seq<Option<RepositoryKind>> {
    entries.map_values(|f: EntryFacts| spec_classify(f))
}

/// Decides, for each entry of one directory listing, whether it stays in the walk and
/// whether its children are listed, from the classifications of all its siblings.
pub fn plan_siblings(kinds: &Vec<Option<RepositoryKind>>, cancelled: bool) -> (r: Vec<SiblingPlan>)
    ensures
        r.len() == kinds.len(),
        forall|i: int| 0 <= i < kinds.len() ==> r[i] == spec_plan(kinds@, cancelled, i),
{
    let mut found_any = false;
    let mut found_bare = false;
    let mut i: usize = 0;
    while i < kinds.len()
        invariant
            i <= kinds.len(),
            found_any == exists|j: int| 0 <= j < i && (#[trigger] kinds@[j]) is Some,
            found_bare == exists|j: int| 0 <= j < i && #[trigger] kinds@[j] == Some(RepositoryKind::Bare),
        decreases kinds.len() - i,
    {
        match kinds[i] {
            Some(k) => {
                found_any = true;
                if k.is_bare() {
                    found_bare = true;
                }
            },
            None => {},
        }
        i = i + 1;
    }
    let restrict = found_any && !found_bare;
    assert(restrict == restricts(kinds@));
    let mut r: Vec<SiblingPlan> = Vec::new();
    let mut i: usize = 0;
    while i < kinds.len()
        invariant
            i <= kinds.len(),
            r.len() == i,
            restrict == restricts(kinds@),
            forall|j: int| 0 <= j < i ==> r[j] == spec_plan(kinds@, cancelled, j),
        decreases kinds.len() - i,
    {
        let kind = kinds[i];
        let keep = !restrict || kind.is_some();
        r.push(SiblingPlan { kind, keep, descend: keep && kind.is_none() && !cancelled });
        i = i + 1;
    }
    r
}

/// Classifies every entry of one directory listing, then plans the walk over them.
pub fn plan_listing(entries: &Vec<EntryFacts>, cancelled: bool) -> (r: Vec<SiblingPlan>)
    ensures
        r.len() == entries.len(),
        forall|i: int| 0 <= i < entries.len() ==> r[i] == spec_plan(classify_all(entries@), cancelled, i),
{
    let mut kinds: Vec<Option<RepositoryKind>> = Vec::new();
    let mut i: usize = 0;
    while i < entries.len()
        invariant
            i <= entries.len(),
            kinds.len() == i,
            forall|j: int| 0 <= j < i ==> kinds[j] == spec_classify(entries@[j]),
        decreases entries.len() - i,
    {
        kinds.push(classify(&entries[i]));
        i = i + 1;
    }
    assert(kinds@ =~= classify_all(entries@));
    plan_siblings(&kinds, cancelled)
}

} // verus!
