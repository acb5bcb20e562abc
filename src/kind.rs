use vstd::prelude::*;

verus! {

/// What a repository marker denotes.
#[derive(PartialEq, Eq, Structural, Clone, Copy, Debug)]
pub enum RepositoryKind {
    /// A repository without a working tree: its git directory is its root.
    Bare,
    /// A checked-out working tree. `linked` is set when its `.git` is a file
    /// pointing at a git directory elsewhere (a linked worktree or a submodule).
    WorkTree { linked: bool },
}

impl RepositoryKind {
    pub open spec fn spec_is_bare(&self) -> bool {
        *self is Bare
    }

    /// Whether this is a bare repository.
    #[verifier::when_used_as_spec(spec_is_bare)]
    pub fn is_bare(&self) -> (r: bool)
        ensures
            r == self.spec_is_bare(),
    {
        match self {
            RepositoryKind::Bare => true,
            RepositoryKind::WorkTree { .. } => false,
        }
    }
}

} // verus!
