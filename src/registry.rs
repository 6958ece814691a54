use vstd::prelude::*;

verus! {

/// A UTC instant: whole seconds since the Unix epoch and the nanoseconds past them.
#[derive(Debug, Clone, Copy, PartialEq, Eq, Structural)]
pub struct Timestamp {
    pub secs: i64,
    pub nanos: u32,
}

/// What a registry entry means, as mathematical values.
pub struct WorktreeRecord {
    pub name: Seq<char>,
    pub branch: Seq<char>,
    pub path: Seq<char>,
    pub repo_name: Seq<char>,
    pub created_at: Timestamp,
}

/// One managed worktree.
#[derive(Debug)]
pub struct WorktreeInfo {
    pub name: String,
    pub branch: String,
    pub path: String,
    pub repo_name: String,
    pub created_at: Timestamp,
}

impl View for WorktreeInfo {
    type V = WorktreeRecord;

    open spec fn view(&self) -> WorktreeRecord {
        WorktreeRecord {
            name: self.name@,
            branch: self.branch@,
            path: self.path@,
            repo_name: self.repo_name@,
            created_at: self.created_at,
        }
    }
}

/// No two records share a name.
pub open spec fn unique_names(recs: Seq<WorktreeRecord>) -> bool {
    forall|i: int, j: int|
        0 <= i < recs.len() && 0 <= j < recs.len() && i != j ==> recs[i].name != recs[j].name
}

/// Some record carries the name.
pub open spec fn has_name(recs: Seq<WorktreeRecord>, name: Seq<char>) -> bool {
    exists|i: int| 0 <= i < recs.len() && recs[i].name == name
}

/// `after` is `before` with `rec` put under its name: in place of the record
/// that had the name, or last when no record had it.
pub open spec fn inserted(before: Seq<WorktreeRecord>, rec: WorktreeRecord, after: Seq<WorktreeRecord>) -> bool {
    &&& has_name(before, rec.name) ==> exists|i: int|
        0 <= i < before.len() && before[i].name == rec.name && after == before.update(i, rec)
    &&& !has_name(before, rec.name) ==> after == before.push(rec)
}

/// The registry: managed worktrees keyed by their unique name, kept in the
/// order in which names were first inserted.
pub struct XlaudeState {
    worktrees: Vec<WorktreeInfo>,
}

impl View for XlaudeState {
    type V = Seq<WorktreeRecord>;

    closed spec fn view(&self) -> Seq<WorktreeRecord> {
        self.worktrees@.map_values(|w: WorktreeInfo| w@)
    }
}

impl XlaudeState {
    /// The registry's invariant: names are unique.
    pub open spec fn wf(&self) -> bool {
        unique_names(self@)
    }

    /// An empty registry.
    pub fn new() -> (r: Self)
        ensures
            r.wf(),
            r@ == Seq::<WorktreeRecord>::empty(),
    {
        let r = XlaudeState { worktrees: Vec::new() };
        assert(r@ =~= Seq::<WorktreeRecord>::empty());
        r
    }

    pub fn len(&self) -> (r: usize)
        ensures
            r == self@.len(),
    {
        self.worktrees.len()
    }

    pub fn is_empty(&self) -> (r: bool)
        ensures
            r == (self@.len() == 0),
    {
        self.worktrees.len() == 0
    }

    /// The record at a position in registry order.
    pub fn entry(&self, i: usize) -> (r: &WorktreeInfo)
        requires
            i < self@.len(),
        ensures
            r@ == self@[i as int],
    {
        &self.worktrees[i]
    }

    /// The position of the record with this name, if any.
    pub fn position(&self, name: &String) -> (r: Option<usize>)
        requires
            self.wf(),
        ensures
            r is None <==> !has_name(self@, name@),
            r matches Some(i) ==> i < self@.len() && self@[i as int].name == name@,
    {
        let mut i: usize = 0;
        while i < self.worktrees.len()
            invariant
                i <= self.worktrees.len(),
                self@.len() == self.worktrees.len(),
                forall|k: int| 0 <= k < i ==> self@[k].name != name@,
            decreases self.worktrees.len() - i,
        {
            assert(self@[i as int] == self.worktrees@[i as int]@);
            if self.worktrees[i].name == *name {
                return Some(i);
            }
            i = i + 1;
        }
        None
    }

    /// Whether a record with this name is registered.
    pub fn contains(&self, name: &String) -> (r: bool)
        requires
            self.wf(),
        ensures
            r == has_name(self@, name@),
    {
        self.position(name).is_some()
    }

    /// The record with this name, if registered.
    pub fn get(&self, name: &String) -> (r: Option<&WorktreeInfo>)
        requires
            self.wf(),
        ensures
            r is None <==> !has_name(self@, name@),
            r matches Some(w) ==> exists|i: int| 0 <= i < self@.len() && self@[i] == w@ && w@.name == name@,
    {
        match self.position(name) {
            Some(i) => Some(&self.worktrees[i]),
            None => None,
        }
    }

    /// Inserts a record under its name, replacing a record of the same name
    /// in place; a new name goes last.
    pub fn insert(&mut self, info: WorktreeInfo)
        requires
            old(self).wf(),
        ensures
            final(self).wf(),
            inserted(old(self)@, info@, final(self)@),
    {
        let ghost info_view = info@;
        match self.position(&info.name) {
            Some(i) => {
                self.worktrees.set(i, info);
                assert(self@ =~= old(self)@.update(i as int, info_view));
            },
            None => {
                self.worktrees.push(info);
                assert(self@ =~= old(self)@.push(info_view));
            },
        }
    }

    /// Removes the record with this name, handing it back; a name that is not
    /// registered leaves the registry as it was.
    pub fn remove(&mut self, name: &String) -> (r: Option<WorktreeInfo>)
        requires
            old(self).wf(),
        ensures
            final(self).wf(),
            r is None <==> !has_name(old(self)@, name@),
            r is None ==> final(self)@ == old(self)@,
            r matches Some(w) ==> exists|i: int|
                0 <= i < old(self)@.len() && old(self)@[i] == w@ && w@.name == name@
                    && final(self)@ == old(self)@.remove(i),
    {
        match self.position(name) {
            Some(i) => {
                let w = self.worktrees.remove(i);
                assert(self@ =~= old(self)@.remove(i as int));
                Some(w)
            },
            None => None,
        }
    }

    /// The registered names, in registry order.
    pub fn names(&self) -> (r: Vec<String>)
        ensures
            r@.len() == self@.len(),
            forall|k: int| 0 <= k < r@.len() ==> r@[k]@ == self@[k].name,
    {
        let mut out: Vec<String> = Vec::new();
        let mut i: usize = 0;
        while i < self.worktrees.len()
            invariant
                i <= self.worktrees.len(),
                self@.len() == self.worktrees.len(),
                out@.len() == i,
                forall|k: int| 0 <= k < i ==> out@[k]@ == self@[k].name,
            decreases self.worktrees.len() - i,
        {
            assert(self@[i as int] == self.worktrees@[i as int]@);
            out.push(self.worktrees[i].name.clone());
            i = i + 1;
        }
        out
    }
}

} // verus!
