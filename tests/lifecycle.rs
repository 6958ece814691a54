use xlaude::create::{create_step, is_base_branch_name, relative_worktree_dir, worktree_dir_name, CreateAction, CreateEvent, CreateStage};
use xlaude::delete::{cleanup_git_references, delete_step, should_check_worktree_status, update_state, DeleteAction, DeleteEvent, DeleteStage};
use xlaude::names::{generate_random_name, worktree_name_or_random};
use xlaude::registry::{Timestamp, WorktreeInfo, XlaudeState};

#[test]
fn create_off_base_branch_fails_first() {
    let begin = CreateEvent::Begin { in_repository: true, on_base_branch: false };
    assert_eq!(create_step(CreateStage::Start, begin), (CreateStage::Failed, CreateAction::FailNotOnBaseBranch));
    assert_eq!(
        create_step(CreateStage::Failed, CreateEvent::BranchCreated(true)),
        (CreateStage::Failed, CreateAction::Nothing)
    );
}

#[test]
fn create_outside_repository_fails() {
    let begin = CreateEvent::Begin { in_repository: false, on_base_branch: true };
    assert_eq!(create_step(CreateStage::Start, begin), (CreateStage::Failed, CreateAction::FailNotInRepository));
}

#[test]
fn create_happy_path() {
    let begin = CreateEvent::Begin { in_repository: true, on_base_branch: true };
    assert_eq!(create_step(CreateStage::Start, begin), (CreateStage::AwaitBranch, CreateAction::CreateBranch));
    assert_eq!(
        create_step(CreateStage::AwaitBranch, CreateEvent::BranchCreated(true)),
        (CreateStage::AwaitWorktree, CreateAction::AddWorktree)
    );
    assert_eq!(
        create_step(CreateStage::AwaitWorktree, CreateEvent::WorktreeAdded(true)),
        (CreateStage::Done, CreateAction::Register)
    );
    assert_eq!(
        create_step(CreateStage::AwaitWorktree, CreateEvent::WorktreeAdded(false)),
        (CreateStage::Failed, CreateAction::FailWorktree)
    );
    assert_eq!(
        create_step(CreateStage::AwaitBranch, CreateEvent::BranchCreated(false)),
        (CreateStage::Failed, CreateAction::FailBranch)
    );
}

#[test]
fn base_branches() {
    for b in ["main", "master", "develop"] {
        assert!(is_base_branch_name(&b.to_string()));
    }
    for b in ["feature", "Main", "", "mainline"] {
        assert!(!is_base_branch_name(&b.to_string()));
    }
}

#[test]
fn worktree_directory_names() {
    let repo = "xlaude".to_string();
    let name = "pear".to_string();
    assert_eq!(worktree_dir_name(&repo, &name), "xlaude-pear");
    assert_eq!(relative_worktree_dir(&repo, &name), "../xlaude-pear");
}

#[test]
fn random_name_is_a_single_word() {
    let n = generate_random_name();
    assert!(!n.is_empty());
    assert!(n.chars().all(|c| c.is_ascii_lowercase()));
    assert_eq!(worktree_name_or_random(Some("pear".to_string())), "pear");
    assert!(!worktree_name_or_random(None).is_empty());
}

#[test]
fn clean_pushed_delete_goes_straight_to_removal() {
    let (st, act) = delete_step(DeleteStage::Start, DeleteEvent::Begin { force: false, dir_exists: true });
    assert_eq!((st, act), (DeleteStage::AwaitStatus, DeleteAction::CheckStatus));
    let (st, act) = delete_step(st, DeleteEvent::StatusChecked { uncommitted: false, unpushed: false });
    assert_eq!((st, act), (DeleteStage::AwaitRemoval, DeleteAction::RemoveWorktree));
    let (st, act) = delete_step(st, DeleteEvent::WorktreeRemoved(true));
    assert_eq!((st, act), (DeleteStage::AwaitBranchDeletion, DeleteAction::DeleteBranch));
    let (st, act) = delete_step(st, DeleteEvent::BranchDeletionAttempted);
    assert_eq!((st, act), (DeleteStage::Done, DeleteAction::RemoveRecord));
}

#[test]
fn dirty_delete_prompts_and_declining_keeps_record() {
    let mut s = XlaudeState::new();
    s.insert(WorktreeInfo {
        name: "apple".to_string(),
        branch: "apple".to_string(),
        path: "/w/repo-apple".to_string(),
        repo_name: "repo".to_string(),
        created_at: Timestamp { secs: 1, nanos: 2 },
    });
    let (st, _) = delete_step(DeleteStage::Start, DeleteEvent::Begin { force: false, dir_exists: true });
    let (st, act) = delete_step(st, DeleteEvent::StatusChecked { uncommitted: true, unpushed: false });
    assert_eq!(act, DeleteAction::WarnAndConfirm { uncommitted: true, unpushed: false });
    let (st, act) = delete_step(st, DeleteEvent::Confirmed(false));
    assert_eq!((st, act), (DeleteStage::Cancelled, DeleteAction::Cancel));
    let (st, act) = delete_step(st, DeleteEvent::BranchDeletionAttempted);
    assert_eq!((st, act), (DeleteStage::Cancelled, DeleteAction::Nothing));
    assert_eq!(s.len(), 1);
    let (_, act) = delete_step(DeleteStage::AwaitStatus, DeleteEvent::StatusChecked { uncommitted: false, unpushed: true });
    assert_eq!(act, DeleteAction::WarnAndConfirm { uncommitted: false, unpushed: true });
    let (_, act) = delete_step(DeleteStage::AwaitConfirmation, DeleteEvent::Confirmed(true));
    assert_eq!(act, DeleteAction::RemoveWorktree);
}

#[test]
fn forced_delete_of_missing_directory_removes_record() {
    let mut s = XlaudeState::new();
    s.insert(WorktreeInfo {
        name: "apple".to_string(),
        branch: "apple".to_string(),
        path: "/nowhere/repo-apple".to_string(),
        repo_name: "repo".to_string(),
        created_at: Timestamp { secs: 1, nanos: 2 },
    });
    let (st, act) = delete_step(DeleteStage::Start, DeleteEvent::Begin { force: true, dir_exists: false });
    assert_eq!((st, act), (DeleteStage::AwaitPrune, DeleteAction::PruneReferences));
    let (st, act) = delete_step(st, DeleteEvent::Pruned);
    assert_eq!(act, DeleteAction::DeleteBranch);
    let (_, act) = delete_step(st, DeleteEvent::BranchDeletionAttempted);
    assert_eq!(act, DeleteAction::RemoveRecord);
    update_state(&mut s, &"apple".to_string());
    assert!(s.is_empty());
}

#[test]
fn unforced_missing_directory_only_reports() {
    assert!(!should_check_worktree_status(false, false));
    assert!(should_check_worktree_status(false, true));
    assert!(!should_check_worktree_status(true, true));
    assert_eq!(
        delete_step(DeleteStage::Start, DeleteEvent::Begin { force: false, dir_exists: false }),
        (DeleteStage::Done, DeleteAction::ReportMissingDirectory)
    );
    assert_eq!(cleanup_git_references(true, true), (DeleteStage::AwaitRemoval, DeleteAction::RemoveWorktree));
}

#[test]
fn failed_removal_aborts() {
    assert_eq!(
        delete_step(DeleteStage::AwaitRemoval, DeleteEvent::WorktreeRemoved(false)),
        (DeleteStage::Failed, DeleteAction::Abort)
    );
}
