use xlaude::error::WorktreeError;
use xlaude::open::{handle_open, open_selected, program_outcome, handle_new, OpenPlan};
use xlaude::registry::{Timestamp, WorktreeInfo, XlaudeState};
use xlaude::resolve::{find_current_worktree_name, get_worktree_info, resolve_worktree_name, select_worktree, Resolution};

fn info(name: &str, path: &str) -> WorktreeInfo {
    WorktreeInfo {
        name: name.to_string(),
        branch: name.to_string(),
        path: path.to_string(),
        repo_name: "repo".to_string(),
        created_at: Timestamp { secs: 0, nanos: 0 },
    }
}

fn apple_registry() -> XlaudeState {
    let mut s = XlaudeState::new();
    s.insert(info("apple", "/home/u/repo-apple"));
    s
}

#[test]
fn empty_registry_fails_for_any_input() {
    let s = XlaudeState::new();
    let cwd = "/home/u/repo-apple".to_string();
    assert_eq!(resolve_worktree_name(None, &cwd, &s), Err(WorktreeError::NoWorktreesRegistered));
    assert_eq!(
        resolve_worktree_name(Some("apple".to_string()), &cwd, &s),
        Err(WorktreeError::NoWorktreesRegistered)
    );
}

#[test]
fn unknown_name_is_not_found() {
    let s = apple_registry();
    let cwd = "/tmp".to_string();
    assert_eq!(
        resolve_worktree_name(Some("pear".to_string()), &cwd, &s),
        Err(WorktreeError::WorktreeNotFound("pear".to_string()))
    );
    assert_eq!(s.len(), 1);
}

#[test]
fn known_name_resolves_unchanged() {
    let s = apple_registry();
    let cwd = "/tmp".to_string();
    assert_eq!(
        resolve_worktree_name(Some("apple".to_string()), &cwd, &s),
        Ok(Resolution::Found("apple".to_string()))
    );
}

#[test]
fn current_directory_resolves_without_prompt() {
    let s = apple_registry();
    let cwd = "/somewhere/else/repo-apple".to_string();
    assert_eq!(resolve_worktree_name(None, &cwd, &s), Ok(Resolution::Found("apple".to_string())));
}

#[test]
fn unmatched_directory_needs_selection() {
    let s = apple_registry();
    let cwd = "/home/u/repo".to_string();
    assert_eq!(resolve_worktree_name(None, &cwd, &s), Ok(Resolution::NeedsSelection));
}

#[test]
fn first_match_wins_on_ambiguity() {
    let mut s = XlaudeState::new();
    s.insert(info("one", "/a/repo-x"));
    s.insert(info("two", "/b/repo-x"));
    assert_eq!(find_current_worktree_name(&s, &"/c/repo-x".to_string()), Some("one".to_string()));
}

#[test]
fn directory_without_final_name_matches_nothing() {
    let mut s = XlaudeState::new();
    s.insert(info("up", "/a/.."));
    assert_eq!(find_current_worktree_name(&s, &"/b/..".to_string()), None);
    assert_eq!(find_current_worktree_name(&s, &"/".to_string()), None);
}

#[test]
fn trailing_slash_still_matches() {
    let s = apple_registry();
    assert_eq!(find_current_worktree_name(&s, &"/x/repo-apple/".to_string()), Some("apple".to_string()));
}

#[test]
fn selection_by_index_and_cancel() {
    let mut s = apple_registry();
    s.insert(info("pear", "/home/u/repo-pear"));
    assert_eq!(select_worktree(&s, Some(1)), Ok("pear".to_string()));
    assert_eq!(select_worktree(&s, None), Err(WorktreeError::SelectionCancelled));
}

#[test]
fn worktree_info_lookup() {
    let s = apple_registry();
    assert_eq!(get_worktree_info(&s, &"apple".to_string()).unwrap().path, "/home/u/repo-apple");
    assert!(matches!(
        get_worktree_info(&s, &"kiwi".to_string()),
        Err(WorktreeError::WorktreeNotFound(n)) if n == "kiwi"
    ));
}

#[test]
fn open_by_name_carries_path_and_program() {
    let s = apple_registry();
    let plan = handle_open(Some("apple".to_string()), Some("code".to_string()), &"/tmp".to_string(), &s).unwrap();
    match plan {
        OpenPlan::Open(t) => {
            assert_eq!(t.name, "apple");
            assert_eq!(t.path, "/home/u/repo-apple");
            assert_eq!(t.program, Some("code".to_string()));
        }
        OpenPlan::NeedsSelection => panic!("expected a target"),
    }
    assert_eq!(
        handle_open(None, None, &"/tmp".to_string(), &s),
        Ok(OpenPlan::NeedsSelection)
    );
    assert_eq!(open_selected(&s, None, None), Err(WorktreeError::SelectionCancelled));
    assert_eq!(open_selected(&s, Some(0), None).unwrap().path, "/home/u/repo-apple");
}

#[test]
fn failing_companion_program_is_child_process_failure() {
    let s = apple_registry();
    assert_eq!(
        program_outcome(&"false".to_string(), false),
        Err(WorktreeError::ChildProcessFailure("false".to_string()))
    );
    assert_eq!(program_outcome(&"true".to_string(), true), Ok(()));
    assert_eq!(s.len(), 1);
    assert_eq!(s.entry(0).name, "apple");
}

#[test]
fn new_opens_what_was_created() {
    let t = handle_new("pear".to_string(), "/w/repo-pear".to_string(), None);
    assert_eq!(t.name, "pear");
    assert_eq!(t.path, "/w/repo-pear");
    assert_eq!(t.program, None);
}
