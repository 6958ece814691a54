use vstd::prelude::*;

use crate::registry::{has_name, XlaudeState};

verus! {

/// Where a deletion stands.
#[derive(Debug, Clone, Copy, PartialEq, Eq, Structural)]
pub enum DeleteStage {
    /// Nothing has been looked at yet.
    Start,
    /// Waiting for the cleanliness and unpushed-commit checks.
    AwaitStatus,
    /// Waiting for the user to confirm.
    AwaitConfirmation,
    /// Waiting for `git worktree remove`.
    AwaitRemoval,
    /// Waiting for the best-effort `git worktree prune`.
    AwaitPrune,
    /// Waiting for the best-effort branch deletion.
    AwaitBranchDeletion,
    /// Finished; whatever had to change has changed.
    Done,
    /// The user declined; nothing was changed.
    Cancelled,
    /// Removing the worktree failed; the registry was left alone.
    Failed,
}

/// What the outside world reports back to the deletion.
#[derive(Debug, Clone, Copy, PartialEq, Eq, Structural)]
pub enum DeleteEvent {
    /// The deletion begins: the force flag and whether the worktree's
    /// directory exists.
    Begin { force: bool, dir_exists: bool },
    /// The checks ran inside the worktree (the previous working directory has
    /// been restored).
    StatusChecked { uncommitted: bool, unpushed: bool },
    /// The user answered the confirmation prompt.
    Confirmed(bool),
    /// `git worktree remove` ran; `true` when it succeeded.
    WorktreeRemoved(bool),
    /// The prune was attempted; its outcome does not matter.
    Pruned,
    /// The branch deletion was attempted; its outcome does not matter.
    BranchDeletionAttempted,
}

/// What the caller has to do next.
#[derive(Debug, Clone, Copy, PartialEq, Eq, Structural)]
pub enum DeleteAction {
    /// Tell the user the directory is missing and that forcing removes the
    /// entry; the command succeeds without change.
    ReportMissingDirectory,
    /// Change into the worktree, check it, and change back.
    CheckStatus,
    /// Show the warnings and ask the user to confirm.
    WarnAndConfirm { uncommitted: bool, unpushed: bool },
    /// Run `git worktree remove` on the worktree's path.
    RemoveWorktree,
    /// Run `git worktree prune`, ignoring failure.
    PruneReferences,
    /// Run `git branch -d` on the worktree's branch, ignoring failure.
    DeleteBranch,
    /// Remove the record from the registry and save it.
    RemoveRecord,
    /// Fail with `OperationCancelled`.
    Cancel,
    /// Fail with `ExternalToolFailure`: the worktree could not be removed.
    Abort,
    /// Nothing: the event does not apply at this stage.
    Nothing,
}

/// The status checks run only when not forced and the directory is there.
pub open spec fn checks_status(force: bool, dir_exists: bool) -> bool {
    !force && dir_exists
}

/// How the version-control side is cleaned up once the deletion may go on.
pub open spec fn cleanup_spec(force: bool, dir_exists: bool) -> (DeleteStage, DeleteAction) {
    if dir_exists {
        (DeleteStage::AwaitRemoval, DeleteAction::RemoveWorktree)
    } else if force {
        (DeleteStage::AwaitPrune, DeleteAction::PruneReferences)
    } else {
        (DeleteStage::Done, DeleteAction::ReportMissingDirectory)
    }
}

/// The deletion's transitions.
pub open spec fn delete_next(stage: DeleteStage, event: DeleteEvent) -> (DeleteStage, DeleteAction) {
    match (stage, event) {
        (DeleteStage::Start, DeleteEvent::Begin { force, dir_exists }) =>
            if checks_status(force, dir_exists) {
                (DeleteStage::AwaitStatus, DeleteAction::CheckStatus)
            } else {
                cleanup_spec(force, dir_exists)
            },
        (DeleteStage::AwaitStatus, DeleteEvent::StatusChecked { uncommitted, unpushed }) =>
            if uncommitted || unpushed {
                (DeleteStage::AwaitConfirmation, DeleteAction::WarnAndConfirm { uncommitted, unpushed })
            } else {
                (DeleteStage::AwaitRemoval, DeleteAction::RemoveWorktree)
            },
        (DeleteStage::AwaitConfirmation, DeleteEvent::Confirmed(yes)) =>
            if yes {
                (DeleteStage::AwaitRemoval, DeleteAction::RemoveWorktree)
            } else {
                (DeleteStage::Cancelled, DeleteAction::Cancel)
            },
        (DeleteStage::AwaitRemoval, DeleteEvent::WorktreeRemoved(ok)) =>
            if ok {
                (DeleteStage::AwaitBranchDeletion, DeleteAction::DeleteBranch)
            } else {
                (DeleteStage::Failed, DeleteAction::Abort)
            },
        (DeleteStage::AwaitPrune, DeleteEvent::Pruned) =>
            (DeleteStage::AwaitBranchDeletion, DeleteAction::DeleteBranch),
        (DeleteStage::AwaitBranchDeletion, DeleteEvent::BranchDeletionAttempted) =>
            (DeleteStage::Done, DeleteAction::RemoveRecord),
        _ => (stage, DeleteAction::Nothing),
    }
}

/// Whether the cleanliness and unpushed-commit checks have to run.
pub fn should_check_worktree_status(force: bool, dir_exists: bool) -> (r: bool)
    ensures
        r == checks_status(force, dir_exists),
{
    !force && dir_exists
}

/// The version-control cleanup for a deletion that may go on: remove an
/// existing worktree, prune the references of a missing one when forced,
/// and otherwise only report the missing directory.
pub fn cleanup_git_references(force: bool, dir_exists: bool) -> (r: (DeleteStage, DeleteAction))
    ensures
        r == cleanup_spec(force, dir_exists),
{
    if dir_exists {
        (DeleteStage::AwaitRemoval, DeleteAction::RemoveWorktree)
    } else if force {
        (DeleteStage::AwaitPrune, DeleteAction::PruneReferences)
    } else {
        (DeleteStage::Done, DeleteAction::ReportMissingDirectory)
    }
}

/// One step of a deletion: the next stage and what to do.
pub fn delete_step(stage: DeleteStage, event: DeleteEvent) -> (r: (DeleteStage, DeleteAction))
    ensures
        r == delete_next(stage, event),
{
    match (stage, event) {
        (DeleteStage::Start, DeleteEvent::Begin { force, dir_exists }) => {
            if should_check_worktree_status(force, dir_exists) {
                (DeleteStage::AwaitStatus, DeleteAction::CheckStatus)
            } else {
                cleanup_git_references(force, dir_exists)
            }
        },
        (DeleteStage::AwaitStatus, DeleteEvent::StatusChecked { uncommitted, unpushed }) => {
            if uncommitted || unpushed {
                (DeleteStage::AwaitConfirmation, DeleteAction::WarnAndConfirm { uncommitted, unpushed })
            } else {
                (DeleteStage::AwaitRemoval, DeleteAction::RemoveWorktree)
            }
        },
        (DeleteStage::AwaitConfirmation, DeleteEvent::Confirmed(yes)) => {
            if yes {
                (DeleteStage::AwaitRemoval, DeleteAction::RemoveWorktree)
            } else {
                (DeleteStage::Cancelled, DeleteAction::Cancel)
            }
        },
        (DeleteStage::AwaitRemoval, DeleteEvent::WorktreeRemoved(ok)) => {
            if ok {
                (DeleteStage::AwaitBranchDeletion, DeleteAction::DeleteBranch)
            } else {
                (DeleteStage::Failed, DeleteAction::Abort)
            }
        },
        (DeleteStage::AwaitPrune, DeleteEvent::Pruned) => {
            (DeleteStage::AwaitBranchDeletion, DeleteAction::DeleteBranch)
        },
        (DeleteStage::AwaitBranchDeletion, DeleteEvent::BranchDeletionAttempted) => {
            (DeleteStage::Done, DeleteAction::RemoveRecord)
        },
        _ => (stage, DeleteAction::Nothing),
    }
}

/// Removes the deleted worktree's record; the caller saves the registry.
pub fn update_state(state: &mut XlaudeState, worktree_name: &String)
    requires
        old(state).wf(),
    ensures
        final(state).wf(),
        !has_name(final(state)@, worktree_name@),
        !has_name(old(state)@, worktree_name@) ==> final(state)@ == old(state)@,
        has_name(old(state)@, worktree_name@) ==> exists|i: int|
            0 <= i < old(state)@.len() && old(state)@[i].name == worktree_name@
                && final(state)@ == old(state)@.remove(i),
{
    let _ = state.remove(worktree_name);
}

/// A stage from which no event leads anywhere else.
pub open spec fn is_final(stage: DeleteStage) -> bool {
    forall|e: DeleteEvent| #[trigger] delete_next(stage, e) == (stage, DeleteAction::Nothing)
}

/// Deleting a worktree whose directory is present, unforced: the checks run,
/// and the user is asked exactly when there are uncommitted changes or
/// unpushed commits; a clean, pushed worktree goes straight to removal.
/// Declining ends the deletion for good, so the record is never removed.
pub proof fn lemma_delete_prompts_only_when_dirty(uncommitted: bool, unpushed: bool)
    ensures
        delete_next(DeleteStage::Start, DeleteEvent::Begin { force: false, dir_exists: true })
            == (DeleteStage::AwaitStatus, DeleteAction::CheckStatus),
        (delete_next(DeleteStage::AwaitStatus, DeleteEvent::StatusChecked { uncommitted, unpushed }).1
            is WarnAndConfirm) <==> (uncommitted || unpushed),
        !(uncommitted || unpushed) ==> delete_next(
            DeleteStage::AwaitStatus,
            DeleteEvent::StatusChecked { uncommitted, unpushed },
        ) == (DeleteStage::AwaitRemoval, DeleteAction::RemoveWorktree),
        delete_next(DeleteStage::AwaitConfirmation, DeleteEvent::Confirmed(false))
            == (DeleteStage::Cancelled, DeleteAction::Cancel),
        is_final(DeleteStage::Cancelled),
{
}

/// A forced deletion of a worktree whose directory is gone prunes the
/// references, attempts the branch deletion, and then removes the record;
/// no directory-based cleanup is asked for.
pub proof fn lemma_forced_delete_of_missing_directory()
    ensures
        delete_next(DeleteStage::Start, DeleteEvent::Begin { force: true, dir_exists: false })
            == (DeleteStage::AwaitPrune, DeleteAction::PruneReferences),
        delete_next(DeleteStage::AwaitPrune, DeleteEvent::Pruned)
            == (DeleteStage::AwaitBranchDeletion, DeleteAction::DeleteBranch),
        delete_next(DeleteStage::AwaitBranchDeletion, DeleteEvent::BranchDeletionAttempted)
            == (DeleteStage::Done, DeleteAction::RemoveRecord),
{
}

} // verus!
