use vstd::prelude::*;

verus! {

/// Every way in which an operation on managed worktrees can fail.
#[derive(Debug, PartialEq, Eq)]
pub enum WorktreeError {
    /// The current directory is not inside a git repository.
    NotInRepository,
    /// The checked-out branch is not one of the base branches.
    NotOnBaseBranch,
    /// The git command failed; the text describes the attempted action.
    ExternalToolFailure(String),
    /// The registry holds no worktrees at all.
    NoWorktreesRegistered,
    /// The named worktree is not registered.
    WorktreeNotFound(String),
    /// The interactive selection was aborted.
    SelectionCancelled,
    /// The user declined the confirmation prompt.
    OperationCancelled,
    /// The registry could not be read or written.
    PersistenceFailure(String),
    /// The stored registry bytes are not a valid encoding.
    MalformedRegistry,
    /// The working directory could not be changed.
    DirectoryChangeFailure(String),
    /// The companion program could not be started or exited with an error.
    ChildProcessFailure(String),
}

} // verus!
