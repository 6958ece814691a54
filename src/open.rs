use vstd::prelude::*;

use crate::error::WorktreeError;
use crate::registry::{has_name, WorktreeRecord, XlaudeState};
use crate::resolve::{current_worktree_spec, get_worktree_info, resolve_worktree_name, select_worktree, Resolution};

verus! {

/// A worktree to switch to, and the program to run in it, if any.
#[derive(Debug, PartialEq, Eq)]
pub struct OpenTarget {
    pub name: String,
    pub path: String,
    pub program: Option<String>,
}

/// What opening settled on.
#[derive(Debug, PartialEq, Eq)]
pub enum OpenPlan {
    /// Switch to this worktree.
    Open(OpenTarget),
    /// The user has to pick the worktree (see `open_selected`).
    NeedsSelection,
}

/// The target names a registered worktree, carries its path, and runs `with`.
pub open spec fn targets(recs: Seq<WorktreeRecord>, t: OpenTarget, with: Option<String>) -> bool {
    &&& t.program == with
    &&& exists|i: int| 0 <= i < recs.len() && recs[i].name == t.name@ && recs[i].path == t.path@
}

/// The target for a resolved name.
fn target_for(state: &XlaudeState, worktree_name: String, with: Option<String>) -> (r: Result<OpenTarget, WorktreeError>)
    requires
        state.wf(),
    ensures
        r is Ok <==> has_name(state@, worktree_name@),
        r matches Ok(t) ==> targets(state@, t, with) && t.name@ == worktree_name@,
        r matches Err(e) ==> (e matches WorktreeError::WorktreeNotFound(m) && m@ == worktree_name@),
{
    let path = match get_worktree_info(state, &worktree_name) {
        Ok(info) => info.path.clone(),
        Err(e) => return Err(e),
    };
    Ok(OpenTarget { name: worktree_name, path, program: with })
}

/// Settles which worktree to open, as `resolve_worktree_name` does, and
/// looks up its path.
pub fn handle_open(name: Option<String>, with: Option<String>, current_dir: &String, state: &XlaudeState) -> (r: Result<OpenPlan, WorktreeError>)
    requires
        state.wf(),
    ensures
        state@.len() == 0 ==> r == Err::<OpenPlan, WorktreeError>(WorktreeError::NoWorktreesRegistered),
        state@.len() > 0 ==> match name {
            Some(n) => if has_name(state@, n@) {
                r matches Ok(OpenPlan::Open(t)) && t.name@ == n@ && targets(state@, t, with)
            } else {
                r matches Err(WorktreeError::WorktreeNotFound(m)) && m@ == n@
            },
            None => match r {
                Ok(OpenPlan::Open(t)) => current_worktree_spec(state@, current_dir@, Some(t.name@))
                    && targets(state@, t, with),
                Ok(OpenPlan::NeedsSelection) => current_worktree_spec(state@, current_dir@, None),
                Err(_) => false,
            },
        },
{
    match resolve_worktree_name(name, current_dir, state) {
        Ok(Resolution::Found(n)) => match target_for(state, n, with) {
            Ok(t) => Ok(OpenPlan::Open(t)),
            Err(e) => Err(e),
        },
        Ok(Resolution::NeedsSelection) => Ok(OpenPlan::NeedsSelection),
        Err(e) => Err(e),
    }
}

/// The target picked by the selection prompt, shown over `state.names()`.
pub fn open_selected(state: &XlaudeState, choice: Option<usize>, with: Option<String>) -> (r: Result<OpenTarget, WorktreeError>)
    requires
        state.wf(),
        choice matches Some(i) ==> i < state@.len(),
    ensures
        match choice {
            Some(i) => r matches Ok(t) && t.name@ == state@[i as int].name && targets(state@, t, with),
            None => r == Err::<OpenTarget, WorktreeError>(WorktreeError::SelectionCancelled),
        },
{
    match select_worktree(state, choice) {
        Ok(n) => {
            proof {
                let i = choice->0 as int;
                assert(state@[i].name == n@);
            }
            target_for(state, n, with)
        },
        Err(e) => Err(e),
    }
}

/// Opening a worktree that was just created.
pub fn handle_new(worktree_name: String, worktree_path: String, with: Option<String>) -> (r: OpenTarget)
    ensures
        r.name@ == worktree_name@,
        r.path@ == worktree_path@,
        r.program == with,
{
    OpenTarget { name: worktree_name, path: worktree_path, program: with }
}

/// The outcome of running the companion program: a failure to start it or
/// an unsuccessful exit is a `ChildProcessFailure` naming the program.
pub fn program_outcome(program: &String, exited_successfully: bool) -> (r: Result<(), WorktreeError>)
    ensures
        exited_successfully <==> r is Ok,
        r matches Err(e) ==> (e matches WorktreeError::ChildProcessFailure(m) && m@ == program@),
{
    if exited_successfully {
        Ok(())
    } else {
        Err(WorktreeError::ChildProcessFailure(program.clone()))
    }
}

} // verus!
