use vstd::prelude::*;
use crate::kind::RepositoryKind;

verus! {

/// The reserved name of a repository marker.
pub const MARKER_NAME: &'static str = ".git";

/// What is known of one directory entry when it is classified.
pub struct EntryFacts {
    /// The entry's final path component.
    pub name: String,
    /// Whether the entry is a directory (a `.git` that is not one is a git file).
    pub is_dir: bool,
    /// Whether the entry holds a regular file named `HEAD`.
    pub has_head: bool,
    /// Whether the entry holds a regular file named `config`.
    pub has_config: bool,
    /// What the git repository validator reports of the entry's path,
    /// `None` where it is not a repository or was not asked.
    pub validated: Option<RepositoryKind>,
}

pub open spec fn marker_name() -> Seq<char> {
    seq!['.', 'g', 'i', 't']
}

/// Only a `.git` directory holding both `HEAD` and `config` is handed to the validator.
pub open spec fn spec_needs_validation(name: Seq<char>, is_dir: bool, has_head: bool, has_config: bool) -> bool {
    name == marker_name() && is_dir && has_head && has_config
}

/// The classification of an entry: a `.git` file is always a linked worktree, a `.git`
/// directory is what the validator says once `HEAD` and `config` are there, and anything
/// else is no repository marker.
pub open spec fn spec_classify(f: EntryFacts) -> Option<RepositoryKind> {
    if f.name@ != marker_name() {
        None
    } else if !f.is_dir {
        Some(RepositoryKind::WorkTree { linked: true })
    } else if f.has_head && f.has_config {
        f.validated
    } else {
        None
    }
}

/// Whether `name` is the repository marker's name.
pub fn is_marker_name(name: &String) -> (r: bool)
    ensures
        r == (name@ == marker_name()),
{
    let marker = String::from_str(MARKER_NAME);
    proof {
        reveal_strlit(".git");
        assert(marker@ =~= marker_name());
    }
    *name == marker
}

/// Whether the validator has to be asked about an entry before it can be classified.
pub fn needs_validation(name: &String, is_dir: bool, has_head: bool, has_config: bool) -> (r: bool)
    ensures
        r == spec_needs_validation(name@, is_dir, has_head, has_config),
{
    is_dir && has_head && has_config && is_marker_name(name)
}

/// Decides whether an entry is a repository marker, and of which kind.
pub fn classify(f: &EntryFacts) -> (r: Option<RepositoryKind>)
    ensures
        r == spec_classify(*f),
{
    if !is_marker_name(&f.name) {
        None
    } else if !f.is_dir {
        Some(RepositoryKind::WorkTree { linked: true })
    } else if f.has_head && f.has_config {
        f.validated
    } else {
        None
    }
}

} // verus!
