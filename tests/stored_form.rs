use xlaude::error::WorktreeError;
use xlaude::registry::{Timestamp, WorktreeInfo, XlaudeState};

fn info(name: &str, path: &str, secs: i64, nanos: u32) -> WorktreeInfo {
    WorktreeInfo {
        name: name.to_string(),
        branch: format!("{}-branch", name),
        path: path.to_string(),
        repo_name: "répo".to_string(),
        created_at: Timestamp { secs, nanos },
    }
}

fn same(a: &XlaudeState, b: &XlaudeState) -> bool {
    if a.len() != b.len() {
        return false;
    }
    (0..a.len()).all(|i| {
        let (x, y) = (a.entry(i), b.entry(i));
        x.name == y.name
            && x.branch == y.branch
            && x.path == y.path
            && x.repo_name == y.repo_name
            && x.created_at == y.created_at
    })
}

#[test]
fn save_then_load_reproduces_records() {
    let mut s = XlaudeState::new();
    s.insert(info("apple", "/w/repo-apple", 1_700_000_000, 123_456_789));
    s.insert(info("pear", "/w/dir with spaces/ünïcode-pear", -5, 999_999_999));
    s.insert(info("", "", i64::MIN, 0));
    let bytes = s.to_bytes();
    let back = XlaudeState::from_bytes(&bytes).unwrap();
    assert!(same(&s, &back));
    assert_eq!(back.to_bytes(), bytes);
}

#[test]
fn empty_registry_round_trips_to_no_bytes() {
    let s = XlaudeState::new();
    let bytes = s.to_bytes();
    assert!(bytes.is_empty());
    assert!(XlaudeState::from_bytes(&bytes).unwrap().is_empty());
}

#[test]
fn stored_form_layout() {
    let mut s = XlaudeState::new();
    s.insert(WorktreeInfo {
        name: "a".to_string(),
        branch: "b".to_string(),
        path: "".to_string(),
        repo_name: "é".to_string(),
        created_at: Timestamp { secs: -1, nanos: 258 },
    });
    let mut expected: Vec<u8> = Vec::new();
    expected.extend_from_slice(&[0, 0, 0, 0, 0, 0, 0, 1, b'a']);
    expected.extend_from_slice(&[0, 0, 0, 0, 0, 0, 0, 1, b'b']);
    expected.extend_from_slice(&[0, 0, 0, 0, 0, 0, 0, 0]);
    expected.extend_from_slice(&[0, 0, 0, 0, 0, 0, 0, 2, 0xC3, 0xA9]);
    expected.extend_from_slice(&[0xFF; 8]);
    expected.extend_from_slice(&[0, 0, 0, 0, 0, 0, 1, 2]);
    assert_eq!(s.to_bytes(), expected);
}

#[test]
fn truncated_bytes_are_malformed() {
    let mut s = XlaudeState::new();
    s.insert(info("apple", "/w/repo-apple", 10, 20));
    let bytes = s.to_bytes();
    for cut in [1, 8, 9, bytes.len() - 1] {
        assert!(matches!(XlaudeState::from_bytes(&bytes[..cut]), Err(WorktreeError::MalformedRegistry)));
    }
}

#[test]
fn duplicate_names_are_malformed() {
    let mut s = XlaudeState::new();
    s.insert(info("apple", "/w/repo-apple", 10, 20));
    let one = s.to_bytes();
    let mut twice = one.clone();
    twice.extend_from_slice(&one);
    assert!(matches!(XlaudeState::from_bytes(&twice), Err(WorktreeError::MalformedRegistry)));
}

#[test]
fn invalid_text_and_oversized_nanos_are_malformed() {
    let mut bad_utf8: Vec<u8> = vec![0, 0, 0, 0, 0, 0, 0, 1, 0xFF];
    bad_utf8.extend_from_slice(&[0; 8 * 5]);
    assert!(matches!(XlaudeState::from_bytes(&bad_utf8), Err(WorktreeError::MalformedRegistry)));
    let mut big_nanos: Vec<u8> = vec![0; 8 * 4 + 8];
    big_nanos.extend_from_slice(&[0, 0, 0, 1, 0, 0, 0, 0]);
    assert!(matches!(XlaudeState::from_bytes(&big_nanos), Err(WorktreeError::MalformedRegistry)));
    let mut ok_nanos: Vec<u8> = vec![0; 8 * 4 + 8];
    ok_nanos.extend_from_slice(&[0, 0, 0, 0, 0xFF, 0xFF, 0xFF, 0xFF]);
    let s = XlaudeState::from_bytes(&ok_nanos).unwrap();
    assert_eq!(s.entry(0).created_at, Timestamp { secs: 0, nanos: u32::MAX });
}
