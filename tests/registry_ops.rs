use xlaude::create::{register_current_worktree, register_worktree};
use xlaude::registry::{Timestamp, WorktreeInfo, XlaudeState};

fn info(name: &str, path: &str) -> WorktreeInfo {
    WorktreeInfo {
        name: name.to_string(),
        branch: name.to_string(),
        path: path.to_string(),
        repo_name: "repo".to_string(),
        created_at: Timestamp { secs: 1_700_000_000, nanos: 5 },
    }
}

#[test]
fn new_registry_is_empty() {
    let s = XlaudeState::new();
    assert!(s.is_empty());
    assert_eq!(s.len(), 0);
    assert!(s.names().is_empty());
}

#[test]
fn insert_keeps_first_insertion_order() {
    let mut s = XlaudeState::new();
    s.insert(info("b", "/w/repo-b"));
    s.insert(info("a", "/w/repo-a"));
    assert_eq!(s.names(), vec!["b".to_string(), "a".to_string()]);
}

#[test]
fn insert_same_name_replaces_in_place() {
    let mut s = XlaudeState::new();
    s.insert(info("a", "/w/one"));
    s.insert(info("b", "/w/repo-b"));
    s.insert(info("a", "/w/two"));
    assert_eq!(s.len(), 2);
    assert_eq!(s.entry(0).path, "/w/two");
    assert_eq!(s.names(), vec!["a".to_string(), "b".to_string()]);
}

#[test]
fn remove_present_and_absent() {
    let mut s = XlaudeState::new();
    s.insert(info("a", "/w/repo-a"));
    s.insert(info("b", "/w/repo-b"));
    let gone = s.remove(&"a".to_string()).unwrap();
    assert_eq!(gone.path, "/w/repo-a");
    assert_eq!(s.names(), vec!["b".to_string()]);
    assert!(s.remove(&"zzz".to_string()).is_none());
    assert_eq!(s.len(), 1);
}

#[test]
fn get_and_contains() {
    let mut s = XlaudeState::new();
    s.insert(info("a", "/w/repo-a"));
    assert!(s.contains(&"a".to_string()));
    assert!(!s.contains(&"b".to_string()));
    assert_eq!(s.get(&"a".to_string()).unwrap().path, "/w/repo-a");
    assert!(s.get(&"b".to_string()).is_none());
    assert_eq!(s.position(&"a".to_string()), Some(0));
}

#[test]
fn create_pear_registers_one_entry_with_current_time() {
    let mut s = XlaudeState::new();
    let before = chrono::Utc::now();
    register_worktree(&mut s, "pear".to_string(), "repo".to_string(), "/w/repo-pear".to_string());
    let after = chrono::Utc::now();
    assert_eq!(s.len(), 1);
    let w = s.entry(0);
    assert_eq!(w.name, "pear");
    assert_eq!(w.branch, "pear");
    assert_eq!(w.repo_name, "repo");
    assert_eq!(w.path, "/w/repo-pear");
    let at = (w.created_at.secs as i128) * 1_000_000_000 + w.created_at.nanos as i128;
    let lo = (before.timestamp() as i128) * 1_000_000_000 + before.timestamp_subsec_nanos() as i128;
    let hi = (after.timestamp() as i128) * 1_000_000_000 + after.timestamp_subsec_nanos() as i128;
    assert!(lo <= at && at <= hi);
}

#[test]
fn add_registers_under_branch_name_by_default() {
    let mut s = XlaudeState::new();
    register_current_worktree(&mut s, None, "feature-x".to_string(), "repo".to_string(), "/w/here".to_string());
    register_current_worktree(
        &mut s,
        Some("mine".to_string()),
        "feature-y".to_string(),
        "repo".to_string(),
        "/w/there".to_string(),
    );
    assert_eq!(s.names(), vec!["feature-x".to_string(), "mine".to_string()]);
    assert_eq!(s.entry(0).branch, "feature-x");
    assert_eq!(s.entry(1).branch, "feature-y");
    assert_eq!(s.entry(1).path, "/w/there");
}
