use vstd::prelude::*;

use crate::registry::{inserted, Timestamp, WorktreeInfo, WorktreeRecord, XlaudeState};

verus! {

/// The branches from which new worktrees may be created.
pub open spec fn is_base_branch_spec(branch: Seq<char>) -> bool {
    branch == "main"@ || branch == "master"@ || branch == "develop"@
}

/// Whether the branch is one of `main`, `master` and `develop`.
pub fn is_base_branch_name(branch: &String) -> (r: bool)
    ensures
        r == is_base_branch_spec(branch@),
{
    *branch == String::from_str("main") || *branch == String::from_str("master")
        || *branch == String::from_str("develop")
}

/// The worktree's directory name: `<repo_name>-<name>`.
pub fn worktree_dir_name(repo_name: &String, worktree_name: &String) -> (r: String)
    ensures
        r@ == repo_name@ + "-"@ + worktree_name@,
{
    let mut dir = repo_name.clone();
    dir.append("-");
    dir.append(worktree_name.as_str());
    dir
}

/// Where `git worktree add` puts the worktree, relative to the repository
/// root: `../<repo_name>-<name>`.
pub fn relative_worktree_dir(repo_name: &String, worktree_name: &String) -> (r: String)
    ensures
        r@ == "../"@ + repo_name@ + "-"@ + worktree_name@,
{
    let dir = worktree_dir_name(repo_name, worktree_name);
    let mut rel = String::from_str("../");
    rel.append(dir.as_str());
    proof {
        assert(rel@ =~= "../"@ + repo_name@ + "-"@ + worktree_name@);
    }
    rel
}

/// Where a creation stands.
#[derive(Debug, Clone, Copy, PartialEq, Eq, Structural)]
pub enum CreateStage {
    /// Nothing has been looked at yet.
    Start,
    /// Waiting for `git branch <name>`.
    AwaitBranch,
    /// Waiting for `git worktree add`.
    AwaitWorktree,
    /// The worktree exists and is to be registered.
    Done,
    /// The creation stopped; the registry was left alone.
    Failed,
}

/// What the outside world reports back to the creation.
#[derive(Debug, Clone, Copy, PartialEq, Eq, Structural)]
pub enum CreateEvent {
    /// The creation begins: whether the current directory is inside a
    /// repository and whether its branch is a base branch.
    Begin { in_repository: bool, on_base_branch: bool },
    /// `git branch <name>` ran; `true` when it succeeded.
    BranchCreated(bool),
    /// `git worktree add` ran; `true` when it succeeded.
    WorktreeAdded(bool),
}

/// What the caller has to do next.
#[derive(Debug, Clone, Copy, PartialEq, Eq, Structural)]
pub enum CreateAction {
    /// Fail with `NotInRepository`.
    FailNotInRepository,
    /// Fail with `NotOnBaseBranch`.
    FailNotOnBaseBranch,
    /// Settle the name (see `worktree_name_or_random`) and create its branch.
    CreateBranch,
    /// Add the worktree at `relative_worktree_dir`, bound to the branch.
    AddWorktree,
    /// Register the worktree (see `register_worktree`) and save the registry.
    Register,
    /// Fail with `ExternalToolFailure`: the branch could not be created.
    FailBranch,
    /// Fail with `ExternalToolFailure`: the worktree could not be added.
    FailWorktree,
    /// Nothing: the event does not apply at this stage.
    Nothing,
}

/// The creation's transitions.
pub open spec fn create_next(stage: CreateStage, event: CreateEvent) -> (CreateStage, CreateAction) {
    match (stage, event) {
        (CreateStage::Start, CreateEvent::Begin { in_repository, on_base_branch }) =>
            if !in_repository {
                (CreateStage::Failed, CreateAction::FailNotInRepository)
            } else if !on_base_branch {
                (CreateStage::Failed, CreateAction::FailNotOnBaseBranch)
            } else {
                (CreateStage::AwaitBranch, CreateAction::CreateBranch)
            },
        (CreateStage::AwaitBranch, CreateEvent::BranchCreated(ok)) =>
            if ok {
                (CreateStage::AwaitWorktree, CreateAction::AddWorktree)
            } else {
                (CreateStage::Failed, CreateAction::FailBranch)
            },
        (CreateStage::AwaitWorktree, CreateEvent::WorktreeAdded(ok)) =>
            if ok {
                (CreateStage::Done, CreateAction::Register)
            } else {
                (CreateStage::Failed, CreateAction::FailWorktree)
            },
        _ => (stage, CreateAction::Nothing),
    }
}

/// One step of a creation: the next stage and what to do.
pub fn create_step(stage: CreateStage, event: CreateEvent) -> (r: (CreateStage, CreateAction))
    ensures
        r == create_next(stage, event),
{
    match (stage, event) {
        (CreateStage::Start, CreateEvent::Begin { in_repository, on_base_branch }) => {
            if !in_repository {
                (CreateStage::Failed, CreateAction::FailNotInRepository)
            } else if !on_base_branch {
                (CreateStage::Failed, CreateAction::FailNotOnBaseBranch)
            } else {
                (CreateStage::AwaitBranch, CreateAction::CreateBranch)
            }
        },
        (CreateStage::AwaitBranch, CreateEvent::BranchCreated(ok)) => {
            if ok {
                (CreateStage::AwaitWorktree, CreateAction::AddWorktree)
            } else {
                (CreateStage::Failed, CreateAction::FailBranch)
            }
        },
        (CreateStage::AwaitWorktree, CreateEvent::WorktreeAdded(ok)) => {
            if ok {
                (CreateStage::Done, CreateAction::Register)
            } else {
                (CreateStage::Failed, CreateAction::FailWorktree)
            }
        },
        _ => (stage, CreateAction::Nothing),
    }
}

/// A creation that is not on a base branch fails with `NotOnBaseBranch` as
/// its first and only action: no branch, no worktree, no registration.
pub proof fn lemma_create_off_base_branch_changes_nothing(later: CreateEvent)
    ensures
        create_next(CreateStage::Start, CreateEvent::Begin { in_repository: true, on_base_branch: false })
            == (CreateStage::Failed, CreateAction::FailNotOnBaseBranch),
        create_next(CreateStage::Failed, later) == (CreateStage::Failed, CreateAction::Nothing),
{
}

/// Relies on `chrono::Utc::now`, read as whole seconds since the epoch and
/// the nanoseconds past them.
#[verifier::external_body]
fn now_utc() -> (r: Timestamp)
{
    let now = chrono::Utc::now();
    Timestamp { secs: now.timestamp(), nanos: now.timestamp_subsec_nanos() }
}

/// Registers a freshly created worktree under its name, with a branch of the
/// same name and the current time as its creation time; the caller saves the
/// registry.
pub fn register_worktree(state: &mut XlaudeState, worktree_name: String, repo_name: String, path: String)
    requires
        old(state).wf(),
    ensures
        final(state).wf(),
        exists|t: Timestamp| inserted(
            old(state)@,
            WorktreeRecord {
                name: worktree_name@,
                branch: worktree_name@,
                path: path@,
                repo_name: repo_name@,
                created_at: t,
            },
            final(state)@,
        ),
{
    let branch = worktree_name.clone();
    let info = WorktreeInfo { name: worktree_name, branch, path, repo_name, created_at: now_utc() };
    let ghost rec = info@;
    state.insert(info);
    assert(inserted(old(state)@, rec, state@));
}

/// The given name, or else the branch's name.
pub open spec fn name_or_branch(name: Option<String>, branch: Seq<char>) -> Seq<char> {
    match name {
        Some(n) => n@,
        None => branch,
    }
}

/// Registers the worktree the user is standing in, under the given name or,
/// without one, under its branch's name; the creation time is now. The
/// caller saves the registry.
pub fn register_current_worktree(
    state: &mut XlaudeState,
    name: Option<String>,
    branch: String,
    repo_name: String,
    path: String,
)
    requires
        old(state).wf(),
    ensures
        final(state).wf(),
        exists|t: Timestamp| #[trigger] inserted(
            old(state)@,
            WorktreeRecord {
                name: name_or_branch(name, branch@),
                branch: branch@,
                path: path@,
                repo_name: repo_name@,
                created_at: t,
            },
            final(state)@,
        ),
{
    let ghost wanted = name_or_branch(name, branch@);
    let worktree_name = match name {
        Some(n) => n,
        None => branch.clone(),
    };
    let info = WorktreeInfo { name: worktree_name, branch, path, repo_name, created_at: now_utc() };
    let ghost rec = info@;
    assert(rec.name == wanted);
    state.insert(info);
    assert(inserted(old(state)@, rec, state@));
}

} // verus!
