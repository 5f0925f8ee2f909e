//! The state of the version-control repository that holds a project.
use vstd::prelude::*;

verus! {

/// A listing of the possible states that a repository can be in.
#[derive(Debug, Copy, Clone, PartialEq, Eq, Structural)]
pub enum RepositoryState {
    Clean,
    Merge,
    Revert,
    RevertSequence,
    CherryPick,
    CherryPickSequence,
    Bisect,
    Rebase,
    RebaseInteractive,
    RebaseMerge,
    ApplyMailbox,
    ApplyMailboxOrRebase,
}

} // verus!
