use vstd::prelude::*;

use crate::error::WorktreeError;
use crate::registry::{has_name, WorktreeInfo, WorktreeRecord, XlaudeState};

verus! {

/// The final component of a path, as `std::path::Path::file_name` gives it.
pub uninterp spec fn path_file_name(path: Seq<char>) -> Option<Seq<char>>;

/// Relies on `std::path::Path::file_name`: the final component of the path,
/// absent when the path ends in `..` or is a root. A `&str` path is always
/// valid UTF-8, so the conversion back to text keeps every component.
#[verifier::external_body]
fn file_name_of(path: &String) -> (r: Option<String>)
    ensures
        match r {
            Some(n) => path_file_name(path@) == Some(n@),
            None => path_file_name(path@) is None,
        },
{
    std::path::Path::new(path.as_str()).file_name().and_then(|n| n.to_str()).map(|n| n.to_string())
}

/// The record's directory carries this name as its final component.
pub open spec fn lives_in(r: WorktreeRecord, dir_name: Seq<char>) -> bool {
    path_file_name(r.path) == Some(dir_name)
}

/// Position `i` holds the first record, in registry order, whose directory
/// is called `dir_name`.
pub open spec fn is_first_in(recs: Seq<WorktreeRecord>, dir_name: Seq<char>, i: int) -> bool {
    &&& 0 <= i < recs.len()
    &&& lives_in(recs[i], dir_name)
    &&& forall|j: int| 0 <= j < i ==> !lives_in(#[trigger] recs[j], dir_name)
}

/// Some record lives in a directory called `dir_name`.
pub open spec fn any_in(recs: Seq<WorktreeRecord>, dir_name: Seq<char>) -> bool {
    exists|i: int| 0 <= i < recs.len() && lives_in(#[trigger] recs[i], dir_name)
}

/// What the current directory's path says about the worktree it belongs to:
/// the name of the first record whose directory has the same final component.
pub open spec fn current_worktree_spec(recs: Seq<WorktreeRecord>, current_dir: Seq<char>, r: Option<Seq<char>>) -> bool {
    &&& path_file_name(current_dir) is None ==> r is None
    &&& path_file_name(current_dir) matches Some(d) ==> {
        &&& r is None ==> !any_in(recs, d)
        &&& r matches Some(n) ==> exists|i: int| #[trigger] is_first_in(recs, d, i) && recs[i].name == n
    }
}

/// Finds the managed worktree whose directory is the current directory, by
/// comparing final path components; on several matches the first one in
/// registry order wins.
pub fn find_current_worktree_name(state: &XlaudeState, current_dir: &String) -> (r: Option<String>)
    ensures
        current_worktree_spec(state@, current_dir@, match r { Some(n) => Some(n@), None => None }),
{
    let dir_name = match file_name_of(current_dir) {
        Some(d) => d,
        None => return None,
    };
    let mut i: usize = 0;
    while i < state.len()
        invariant
            i <= state@.len(),
            path_file_name(current_dir@) == Some(dir_name@),
            forall|j: int| 0 <= j < i ==> !lives_in(#[trigger] state@[j], dir_name@),
        decreases state@.len() - i,
    {
        let w = state.entry(i);
        let found = match file_name_of(&w.path) {
            Some(n) => n == dir_name,
            None => false,
        };
        if found {
            let n = w.name.clone();
            proof {
                let d = path_file_name(current_dir@)->0;
                assert(d == dir_name@);
                assert(is_first_in(state@, d, i as int) && state@[i as int].name == n@);
            }
            return Some(n);
        }
        i = i + 1;
    }
    None
}

/// What resolution settled on.
#[derive(Debug, PartialEq, Eq)]
pub enum Resolution {
    /// The operation applies to this registered worktree.
    Found(String),
    /// Nothing settles the name: the user has to pick one of the registered
    /// names (see `select_worktree`).
    NeedsSelection,
}

/// Decides which worktree an operation applies to. A given name must be
/// registered and is returned as it is; without one, the worktree whose
/// directory is the current directory is taken; failing that the user must
/// choose. An empty registry fails whatever the input.
pub fn resolve_worktree_name(name: Option<String>, current_dir: &String, state: &XlaudeState) -> (r: Result<Resolution, WorktreeError>)
    requires
        state.wf(),
    ensures
        state@.len() == 0 ==> r == Err::<Resolution, WorktreeError>(WorktreeError::NoWorktreesRegistered),
        state@.len() > 0 ==> match name {
            Some(n) => if has_name(state@, n@) {
                r matches Ok(Resolution::Found(m)) && m@ == n@
            } else {
                r matches Err(WorktreeError::WorktreeNotFound(m)) && m@ == n@
            },
            None => match r {
                Ok(Resolution::Found(m)) => current_worktree_spec(state@, current_dir@, Some(m@)),
                Ok(Resolution::NeedsSelection) => current_worktree_spec(state@, current_dir@, None),
                Err(_) => false,
            },
        },
{
    if state.is_empty() {
        return Err(WorktreeError::NoWorktreesRegistered);
    }
    match name {
        Some(n) => {
            if state.contains(&n) {
                Ok(Resolution::Found(n))
            } else {
                Err(WorktreeError::WorktreeNotFound(n))
            }
        },
        None => match find_current_worktree_name(state, current_dir) {
            Some(m) => Ok(Resolution::Found(m)),
            None => Ok(Resolution::NeedsSelection),
        },
    }
}

/// Turns the answer of the selection prompt, shown over `state.names()`, into
/// a worktree name; an aborted prompt gives `SelectionCancelled`.
pub fn select_worktree(state: &XlaudeState, choice: Option<usize>) -> (r: Result<String, WorktreeError>)
    requires
        choice matches Some(i) ==> i < state@.len(),
    ensures
        match choice {
            Some(i) => r matches Ok(n) && n@ == state@[i as int].name,
            None => r == Err::<String, WorktreeError>(WorktreeError::SelectionCancelled),
        },
{
    match choice {
        Some(i) => Ok(state.entry(i).name.clone()),
        None => Err(WorktreeError::SelectionCancelled),
    }
}

/// The record registered under `worktree_name`.
pub fn get_worktree_info<'a>(state: &'a XlaudeState, worktree_name: &String) -> (r: Result<&'a WorktreeInfo, WorktreeError>)
    requires
        state.wf(),
    ensures
        match r {
            Ok(w) => w@.name == worktree_name@ && exists|i: int| 0 <= i < state@.len() && state@[i] == w@,
            Err(e) => !has_name(state@, worktree_name@) && (e matches WorktreeError::WorktreeNotFound(m) && m@ == worktree_name@),
        },
        r is Err <==> !has_name(state@, worktree_name@),
{
    match state.get(worktree_name) {
        Some(w) => Ok(w),
        None => Err(WorktreeError::WorktreeNotFound(worktree_name.clone())),
    }
}

} // verus!
