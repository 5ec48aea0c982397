//! The decisions of a live synchronization, as a state machine.
//!
//! The caller inventories both trees, compares, copies and removes files; it
//! hands each outcome to [`LiveSync`], which decides what is written, what is
//! removed or withheld, and how every outcome is recorded. Paths are
//! relative, `/`-separated, and listed in path order.

use vstd::prelude::*;

use crate::live::{operation, ops_view, opt_view, LiveAction, LiveInstallResult, LiveOperation, LiveStatus, OpView};
use crate::paths::{contains_path, copy_paths, filter_by_membership, lemma_filter_by_membership, merge_sorted, select_by_membership, sorted_paths, strs};

verus! {

/// What the caller observed after copying one planned file and comparing it.
pub enum WriteEvent {
    /// The copy itself failed with this message.
    CopyFailed(String),
    /// Comparing the copy with its source failed with this message.
    CompareFailed(String),
    /// The copy was compared with its source: equal or not.
    Compared(bool),
}

/// What the caller observed after removing one obsolete installed file.
pub enum RemovalEvent {
    /// The removal failed with this message.
    RemoveFailed(String),
    /// The removal returned; the file may still exist.
    Removed { still_exists: bool },
}

/// What the caller observed after removing one installed directory.
pub enum DirectoryEvent {
    /// The directory was removed.
    Removed,
    /// The directory still holds entries and was kept.
    NotEmpty,
    /// The removal failed with this message.
    Failed(String),
}

/// What the caller observed comparing one installed file with the artifact.
pub enum ContentEvent {
    /// The bytes are identical.
    Equal,
    /// The bytes differ.
    Different,
    /// The comparison failed with this message.
    Failed(String),
}

/// Message of a write whose copy does not read back equal.
pub open spec fn copy_mismatch_text() -> Seq<char> {
    "copied bytes failed verification"@
}

/// Message of a removal withheld after a failed write.
pub open spec fn withheld_text() -> Seq<char> {
    "not removed because a file update failed"@
}

/// Message of a removal after which the file is still present.
pub open spec fn still_exists_text() -> Seq<char> {
    "file still exists after removal"@
}

/// Message of a path in one tree but not the other after synchronization.
pub open spec fn file_set_text() -> Seq<char> {
    "final installed file set does not match the artifact"@
}

/// Message of an installed file whose bytes differ from the artifact.
pub open spec fn content_text() -> Seq<char> {
    "installed bytes do not match the artifact"@
}

/// A planned write as plain values.
pub open spec fn writes_view(w: Seq<(LiveAction, String)>) -> Seq<(LiveAction, Seq<char>)> {
    w.map_values(|p: (LiveAction, String)| (p.0, p.1@))
}

/// Whether source file `p` needs no write: it is installed with equal bytes.
pub open spec fn is_unchanged(installed: Seq<Seq<char>>, p: Seq<char>, same: bool) -> bool {
    installed.contains(p) && same
}

/// The unchanged files of the plan, in source order.
pub open spec fn planned_unchanged(source: Seq<Seq<char>>, installed: Seq<Seq<char>>, same: Seq<bool>) -> Seq<OpView>
    decreases source.len(),
{
    if source.len() == 0 || same.len() != source.len() {
        seq![]
    } else {
        let rest = planned_unchanged(source.drop_last(), installed, same.drop_last());
        if is_unchanged(installed, source.last(), same.last()) {
            rest.push((LiveAction::Unchanged, LiveStatus::Unchanged, source.last(), None))
        } else {
            rest
        }
    }
}

/// The writes of the plan, in source order: an update where the file is
/// installed with other bytes, a create where it is not installed.
pub open spec fn planned_writes(source: Seq<Seq<char>>, installed: Seq<Seq<char>>, same: Seq<bool>) -> Seq<(LiveAction, Seq<char>)>
    decreases source.len(),
{
    if source.len() == 0 || same.len() != source.len() {
        seq![]
    } else {
        let rest = planned_writes(source.drop_last(), installed, same.drop_last());
        if is_unchanged(installed, source.last(), same.last()) {
            rest
        } else if installed.contains(source.last()) {
            rest.push((LiveAction::Update, source.last()))
        } else {
            rest.push((LiveAction::Create, source.last()))
        }
    }
}

/// The record of one planned write, given what the caller observed.
pub open spec fn write_outcome(w: (LiveAction, Seq<char>), e: WriteEvent) -> OpView {
    match e {
        WriteEvent::Compared(true) => (w.0, LiveStatus::Applied, w.1, None),
        WriteEvent::Compared(false) => (w.0, LiveStatus::Failed, w.1, Some(copy_mismatch_text())),
        WriteEvent::CopyFailed(m) => (w.0, LiveStatus::Failed, w.1, Some(m@)),
        WriteEvent::CompareFailed(m) => (w.0, LiveStatus::Failed, w.1, Some(m@)),
    }
}

/// The record of one removal, given what the caller observed.
pub open spec fn removal_outcome(p: Seq<char>, e: RemovalEvent) -> OpView {
    match e {
        RemovalEvent::Removed { still_exists: false } => (LiveAction::Remove, LiveStatus::Applied, p, None),
        RemovalEvent::Removed { still_exists: true } => (LiveAction::Remove, LiveStatus::Failed, p, Some(still_exists_text())),
        RemovalEvent::RemoveFailed(m) => (LiveAction::Remove, LiveStatus::Failed, p, Some(m@)),
    }
}

/// The record of one directory cleanup, if any.
pub open spec fn directory_outcome(p: Seq<char>, e: DirectoryEvent) -> Seq<OpView> {
    match e {
        DirectoryEvent::Removed => seq![(LiveAction::CleanDirectory, LiveStatus::Applied, p, None)],
        DirectoryEvent::NotEmpty => seq![],
        DirectoryEvent::Failed(m) => seq![(LiveAction::CleanDirectory, LiveStatus::Failed, p, Some(m@))],
    }
}

/// The record of one final content check, if any.
pub open spec fn content_outcome(p: Seq<char>, e: ContentEvent) -> Seq<OpView> {
    match e {
        ContentEvent::Equal => seq![],
        ContentEvent::Different => seq![(LiveAction::Verify, LiveStatus::Failed, p, Some(content_text()))],
        ContentEvent::Failed(m) => seq![(LiveAction::Verify, LiveStatus::Failed, p, Some(m@))],
    }
}

/// The skipped records of withheld removals.
pub open spec fn withheld(removals: Seq<Seq<char>>) -> Seq<OpView> {
    removals.map_values(|p: Seq<char>| (LiveAction::Remove, LiveStatus::Skipped, p, Some(withheld_text())))
}

/// The failed records of paths whose presence differs between the trees.
pub open spec fn file_set_failures(paths: Seq<Seq<char>>) -> Seq<OpView> {
    paths.map_values(|p: Seq<char>| (LiveAction::Verify, LiveStatus::Failed, p, Some(file_set_text())))
}

/// Whether some recorded operation failed.
pub open spec fn any_failed(ops: Seq<OpView>) -> bool {
    exists|i: int| 0 <= i < ops.len() && (#[trigger] ops[i]).1 == LiveStatus::Failed
}

/// For each source file, whether an installed copy exists to compare with.
pub fn needs_comparison(source: &Vec<String>, installed: &Vec<String>) -> (r: Vec<bool>)
    ensures
        r.len() == source.len(),
        forall|k: int| 0 <= k < source.len() ==> #[trigger] r@[k] == strs(installed@).contains(strs(source@)[k]),
{
    let mut r: Vec<bool> = Vec::new();
    let mut i: usize = 0;
    while i < source.len()
        invariant
            i <= source.len(),
            r.len() == i,
            forall|k: int| 0 <= k < i ==> #[trigger] r@[k] == strs(installed@).contains(strs(source@)[k]),
        decreases source.len() - i,
    {
        let present = contains_path(installed, source[i].as_str());
        r.push(present);
        i = i + 1;
    }
    r
}

/// Once some recorded operation failed, it stays failed whatever is appended.
proof fn lemma_failure_persists(a: Seq<OpView>, b: Seq<OpView>)
    requires
        any_failed(a),
    ensures
        any_failed(a + b),
{
    let i = choose|i: int| 0 <= i < a.len() && (#[trigger] a[i]).1 == LiveStatus::Failed;
    assert((a + b)[i] == a[i]);
}

/// A live synchronization in progress: the plan, how far each phase has
/// come, and every recorded outcome.
///
/// The phases run in order: every planned write is recorded once, in plan
/// order; then the removal phase is decided, and when removals are allowed
/// every obsolete file is recorded once, in path order, and then every
/// installed directory once, deepest first; then the final file set is
/// checked; then every file in both trees has its content checked once, in
/// path order.
pub struct LiveSync {
    /// The artifact's files, in path order.
    source: Vec<String>,
    /// Planned writes, in source order.
    writes: Vec<(LiveAction, String)>,
    /// Installed files absent from the artifact, in path order.
    removals: Vec<String>,
    /// How many planned writes have been recorded.
    writes_done: usize,
    /// Whether the removal phase was decided.
    removals_begun: bool,
    /// Whether removals were allowed, which happens only when no write failed.
    removing: bool,
    /// How many obsolete files have been recorded.
    removals_done: usize,
    /// The installed directories, deepest first.
    dirs: Vec<String>,
    /// How many installed directories have been recorded.
    dirs_done: usize,
    /// Whether the final file set was checked.
    checked: bool,
    /// The installed files after synchronization.
    final_files: Vec<String>,
    /// The files in both trees after synchronization, whose content is checked.
    compare: Vec<String>,
    /// How many content checks have been recorded.
    contents_done: usize,
    /// Whether every recorded content check found equal bytes.
    all_equal: bool,
    /// Every recorded operation so far.
    operations: Vec<LiveOperation>,
}

impl LiveSync {
    /// The artifact's files as plain values.
    pub closed spec fn source(&self) -> Seq<Seq<char>> {
        strs(self.source@)
    }

    /// The planned writes as plain values.
    pub closed spec fn writes(&self) -> Seq<(LiveAction, Seq<char>)> {
        writes_view(self.writes@)
    }

    /// The obsolete installed files as plain values.
    pub closed spec fn removals(&self) -> Seq<Seq<char>> {
        strs(self.removals@)
    }

    /// The number of planned writes recorded so far.
    pub closed spec fn writes_recorded(&self) -> nat {
        self.writes_done as nat
    }

    /// Whether the removal phase was decided.
    pub closed spec fn removals_begun(&self) -> bool {
        self.removals_begun
    }

    /// Whether removals and directory cleanup were allowed.
    pub closed spec fn removing(&self) -> bool {
        self.removing
    }

    /// The number of obsolete files recorded so far.
    pub closed spec fn removals_recorded(&self) -> nat {
        self.removals_done as nat
    }

    /// The installed directories, deepest first: each is visited after
    /// everything inside it.
    pub closed spec fn directories(&self) -> Seq<Seq<char>> {
        strs(self.dirs@)
    }

    /// The number of installed directories recorded so far.
    pub closed spec fn directories_recorded(&self) -> nat {
        self.dirs_done as nat
    }

    /// Whether the final file set was checked.
    pub closed spec fn file_set_checked(&self) -> bool {
        self.checked
    }

    /// The installed files after synchronization, once checked.
    pub closed spec fn final_files(&self) -> Seq<Seq<char>> {
        strs(self.final_files@)
    }

    /// The files whose content is checked: those in both trees.
    pub closed spec fn compared(&self) -> Seq<Seq<char>> {
        strs(self.compare@)
    }

    /// The number of content checks recorded so far.
    pub closed spec fn contents_recorded(&self) -> nat {
        self.contents_done as nat
    }

    /// Whether every content check recorded so far found equal bytes.
    pub closed spec fn contents_equal(&self) -> bool {
        self.all_equal
    }

    /// The recorded operations as plain values.
    pub closed spec fn ops(&self) -> Seq<OpView> {
        ops_view(self.operations@)
    }

    /// The synchronization's invariant: progress stays within the plan, and
    /// a failed final check is always on record.
    pub closed spec fn wf(&self) -> bool {
        &&& self.writes_done <= self.writes.len()
        &&& self.removals_done <= self.removals.len()
        &&& self.dirs_done <= self.dirs.len()
        &&& self.contents_done <= self.compare.len()
        &&& sorted_paths(strs(self.source@))
        &&& (self.removing ==> self.removals_begun)
        &&& (self.checked ==> self.removals_begun)
        &&& (self.checked ==> strs(self.compare@) == filter_by_membership(strs(self.source@), strs(self.final_files@), true))
        &&& (self.checked ==> any_failed(self.ops()) || same_files(strs(self.source@), strs(self.final_files@)))
        &&& (!self.all_equal ==> any_failed(self.ops()))
        &&& (!self.checked ==> self.all_equal)
    }

    /// What every step keeps: the artifact's files and the plan.
    pub open spec fn keeps_plan(&self, before: &Self) -> bool {
        &&& self.source() == before.source()
        &&& self.writes() == before.writes()
        &&& self.removals() == before.removals()
        &&& self.directories() == before.directories()
    }

    /// Plans a synchronization from the artifact's files, the installed
    /// files and directories, and for each artifact file whether an
    /// installed copy compared equal (only read where one is installed).
    pub fn plan(source: &Vec<String>, installed: &Vec<String>, directories: &Vec<String>, same: &Vec<bool>) -> (r: Self)
        requires
            same.len() == source.len(),
            sorted_paths(strs(source@)),
        ensures
            r.wf(),
            r.source() == strs(source@),
            r.ops() == planned_unchanged(strs(source@), strs(installed@), same@),
            r.writes() == planned_writes(strs(source@), strs(installed@), same@),
            r.removals() == filter_by_membership(strs(installed@), strs(source@), false),
            r.directories() == deepest_first_of(strs(directories@)),
            r.directories_recorded() == 0,
            r.writes_recorded() == 0,
            !r.removals_begun(),
            !r.removing(),
            r.removals_recorded() == 0,
            !r.file_set_checked(),
            r.contents_recorded() == 0,
            r.contents_equal(),
    {
        let ghost s = strs(source@);
        let ghost t = strs(installed@);
        let mut operations: Vec<LiveOperation> = Vec::new();
        let mut writes: Vec<(LiveAction, String)> = Vec::new();
        let mut i: usize = 0;
        while i < source.len()
            invariant
                i <= source.len() == same.len(),
                s == strs(source@),
                t == strs(installed@),
                ops_view(operations@) == planned_unchanged(s.take(i as int), t, same@.take(i as int)),
                writes_view(writes@) == planned_writes(s.take(i as int), t, same@.take(i as int)),
            decreases source.len() - i,
        {
            assert(s.take(i + 1).drop_last() == s.take(i as int));
            assert(same@.take(i + 1).drop_last() == same@.take(i as int));
            assert(s.take(i + 1).last() == source@[i as int]@);
            let present = contains_path(installed, source[i].as_str());
            if present && same[i] {
                let ghost before = ops_view(operations@);
                let op = operation(LiveAction::Unchanged, LiveStatus::Unchanged, source[i].as_str(), None);
                operations.push(op);
                assert(ops_view(operations@) == before.push(crate::live::op_view(op)));
            } else {
                let ghost before = writes_view(writes@);
                let action = if present { LiveAction::Update } else { LiveAction::Create };
                writes.push((action, source[i].clone()));
                assert(writes_view(writes@) == before.push((action, source@[i as int]@)));
            }
            i = i + 1;
        }
        assert(s.take(source.len() as int) == s);
        assert(same@.take(source.len() as int) == same@);
        let removals = select_by_membership(installed, source, false);
        LiveSync {
            source: copy_paths(source),
            writes,
            removals,
            writes_done: 0,
            removals_begun: false,
            removing: false,
            removals_done: 0,
            dirs: deepest_first(directories),
            dirs_done: 0,
            checked: false,
            final_files: Vec::new(),
            compare: Vec::new(),
            contents_done: 0,
            all_equal: true,
            operations,
        }
    }

    /// The number of planned writes.
    pub fn write_count(&self) -> (r: usize)
        ensures
            r == self.writes().len(),
    {
        self.writes.len()
    }

    /// The planned write at `k`: its action and path.
    pub fn write_at(&self, k: usize) -> (r: (LiveAction, String))
        requires
            k < self.writes().len(),
        ensures
            (r.0, r.1@) == self.writes()[k as int],
    {
        (self.writes[k].0, self.writes[k].1.clone())
    }

    /// The number of obsolete installed files.
    pub fn removal_count(&self) -> (r: usize)
        ensures
            r == self.removals().len(),
    {
        self.removals.len()
    }

    /// The obsolete installed file at `k`.
    pub fn removal_at(&self, k: usize) -> (r: String)
        requires
            k < self.removals().len(),
        ensures
            r@ == self.removals()[k as int],
    {
        self.removals[k].clone()
    }

    /// Records the outcome of planned write `k`, the next one not yet
    /// recorded: applied only when the copy compared equal with its source.
    pub fn record_write(&mut self, k: usize, event: WriteEvent)
        requires
            old(self).wf(),
            !old(self).removals_begun(),
            k == old(self).writes_recorded(),
            k < old(self).writes().len(),
        ensures
            final(self).wf(),
            final(self).keeps_plan(old(self)),
            final(self).ops() == old(self).ops().push(write_outcome(old(self).writes()[k as int], event)),
            final(self).writes_recorded() == old(self).writes_recorded() + 1,
            final(self).directories_recorded() == old(self).directories_recorded(),
            !final(self).removals_begun(),
            !final(self).removing(),
            !final(self).file_set_checked(),
            final(self).contents_equal(),
    {
        let action = self.writes[k].0;
        let path = self.writes[k].1.clone();
        let op = match event {
            WriteEvent::Compared(true) => operation(action, LiveStatus::Applied, path.as_str(), None),
            WriteEvent::Compared(false) => {
                let m = "copied bytes failed verification";
                proof { reveal_strlit("copied bytes failed verification"); }
                operation(action, LiveStatus::Failed, path.as_str(), Some(m.to_owned()))
            },
            WriteEvent::CopyFailed(m) => operation(action, LiveStatus::Failed, path.as_str(), Some(m)),
            WriteEvent::CompareFailed(m) => operation(action, LiveStatus::Failed, path.as_str(), Some(m)),
        };
        let ghost before = self.ops();
        self.operations.push(op);
        self.writes_done = self.writes_done + 1;
        assert(self.ops() == before.push(crate::live::op_view(op)));
    }

    /// Whether some recorded operation failed.
    pub fn write_failed(&self) -> (r: bool)
        ensures
            r == any_failed(self.ops()),
    {
        let mut i: usize = 0;
        while i < self.operations.len()
            invariant
                i <= self.operations.len(),
                forall|j: int| 0 <= j < i ==> (#[trigger] self.ops()[j]).1 != LiveStatus::Failed,
            decreases self.operations.len() - i,
        {
            assert(self.ops()[i as int] == crate::live::op_view(self.operations@[i as int]));
            if self.operations[i].status == LiveStatus::Failed {
                return true;
            }
            i = i + 1;
        }
        false
    }

    /// Decides the removal phase once every planned write is recorded. When
    /// a write failed, every obsolete file is recorded as skipped and nothing
    /// may be removed; otherwise removals and directory cleanup are allowed
    /// and nothing is recorded yet.
    pub fn begin_removals(&mut self) -> (r: bool)
        requires
            old(self).wf(),
            !old(self).removals_begun(),
            old(self).writes_recorded() == old(self).writes().len(),
        ensures
            final(self).wf(),
            final(self).keeps_plan(old(self)),
            r == !any_failed(old(self).ops()),
            final(self).removals_begun(),
            final(self).removing() == r,
            r ==> final(self).ops() == old(self).ops(),
            !r ==> final(self).ops() == old(self).ops() + withheld(old(self).removals()),
            final(self).writes_recorded() == old(self).writes_recorded(),
            final(self).removals_recorded() == 0,
            final(self).directories_recorded() == old(self).directories_recorded(),
            !final(self).file_set_checked(),
            final(self).contents_equal(),
    {
        if self.write_failed() {
            let ghost start = self.ops();
            let mut i: usize = 0;
            while i < self.removals.len()
                invariant
                    i <= self.removals.len(),
                    start == old(self).ops(),
                    self.removals@ == old(self).removals@,
                    self.writes@ == old(self).writes@,
                    self.source@ == old(self).source@,
                    self.writes_done == old(self).writes_done,
                    self.removals_done == old(self).removals_done,
                    self.dirs@ == old(self).dirs@,
                    self.dirs_done == old(self).dirs_done,
                    self.contents_done == old(self).contents_done,
                    self.compare@ == old(self).compare@,
                    self.checked == old(self).checked,
                    self.all_equal == old(self).all_equal,
                    self.removing == old(self).removing,
                    self.removals_begun == old(self).removals_begun,
                    self.ops() == start + withheld(strs(self.removals@).take(i as int)),
                decreases self.removals.len() - i,
            {
                let m = "not removed because a file update failed";
                proof { reveal_strlit("not removed because a file update failed"); }
                let op = operation(LiveAction::Remove, LiveStatus::Skipped, self.removals[i].as_str(), Some(m.to_owned()));
                let ghost before = self.ops();
                self.operations.push(op);
                assert(self.ops() == before.push(crate::live::op_view(op)));
                assert(withheld(strs(self.removals@).take(i + 1)) == withheld(strs(self.removals@).take(i as int)).push(
                    crate::live::op_view(op),
                ));
                i = i + 1;
            }
            assert(strs(self.removals@).take(self.removals.len() as int) == strs(self.removals@));
            self.removing = false;
            self.removals_begun = true;
            self.removals_done = 0;
            false
        } else {
            self.removing = true;
            self.removals_begun = true;
            self.removals_done = 0;
            true
        }
    }

    /// Records the outcome of removing obsolete file `k`, the next one not
    /// yet recorded; allowed only after [`LiveSync::begin_removals`] found no
    /// failed write.
    pub fn record_removal(&mut self, k: usize, event: RemovalEvent)
        requires
            old(self).wf(),
            old(self).removing(),
            !old(self).file_set_checked(),
            k == old(self).removals_recorded(),
            k < old(self).removals().len(),
        ensures
            final(self).wf(),
            final(self).keeps_plan(old(self)),
            final(self).ops() == old(self).ops().push(removal_outcome(old(self).removals()[k as int], event)),
            final(self).removals_recorded() == old(self).removals_recorded() + 1,
            final(self).directories_recorded() == old(self).directories_recorded(),
            final(self).removals_begun(),
            final(self).removing(),
            !final(self).file_set_checked(),
            final(self).contents_equal(),
    {
        let path = self.removals[k].clone();
        let op = match event {
            RemovalEvent::Removed { still_exists: false } => operation(LiveAction::Remove, LiveStatus::Applied, path.as_str(), None),
            RemovalEvent::Removed { still_exists: true } => {
                let m = "file still exists after removal";
                proof { reveal_strlit("file still exists after removal"); }
                operation(LiveAction::Remove, LiveStatus::Failed, path.as_str(), Some(m.to_owned()))
            },
            RemovalEvent::RemoveFailed(m) => operation(LiveAction::Remove, LiveStatus::Failed, path.as_str(), Some(m)),
        };
        let ghost before = self.ops();
        self.operations.push(op);
        self.removals_done = self.removals_done + 1;
        assert(self.ops() == before.push(crate::live::op_view(op)));
    }

    /// The number of installed directories.
    pub fn directory_count(&self) -> (r: usize)
        ensures
            r == self.directories().len(),
    {
        self.dirs.len()
    }

    /// The installed directory at `k`, deepest first.
    pub fn directory_at(&self, k: usize) -> (r: String)
        requires
            k < self.directories().len(),
        ensures
            r@ == self.directories()[k as int],
    {
        self.dirs[k].clone()
    }

    /// Records the outcome of removing installed directory `k`, the next one
    /// not yet recorded; allowed only once every obsolete file is recorded,
    /// and only after [`LiveSync::begin_removals`] found no failed write. A
    /// directory that still holds entries is kept without a record.
    pub fn record_directory(&mut self, k: usize, event: DirectoryEvent)
        requires
            old(self).wf(),
            old(self).removing(),
            !old(self).file_set_checked(),
            old(self).removals_recorded() == old(self).removals().len(),
            k == old(self).directories_recorded(),
            k < old(self).directories().len(),
        ensures
            final(self).wf(),
            final(self).keeps_plan(old(self)),
            final(self).ops() == old(self).ops() + directory_outcome(old(self).directories()[k as int], event),
            final(self).removals_recorded() == old(self).removals_recorded(),
            final(self).directories_recorded() == old(self).directories_recorded() + 1,
            final(self).removals_begun(),
            final(self).removing(),
            !final(self).file_set_checked(),
            final(self).contents_equal(),
    {
        let ghost before = self.ops();
        let path = self.dirs[k].clone();
        match event {
            DirectoryEvent::Removed => {
                let op = operation(LiveAction::CleanDirectory, LiveStatus::Applied, path.as_str(), None);
                self.operations.push(op);
                assert(self.ops() == before.push(crate::live::op_view(op)));
            },
            DirectoryEvent::NotEmpty => {
                assert(before + seq![] == before);
            },
            DirectoryEvent::Failed(m) => {
                let op = operation(LiveAction::CleanDirectory, LiveStatus::Failed, path.as_str(), Some(m));
                self.operations.push(op);
                assert(self.ops() == before.push(crate::live::op_view(op)));
            },
        }
        self.dirs_done = self.dirs_done + 1;
    }

    /// Checks the installed file set after synchronization: records each
    /// path in exactly one of the two trees as failed, and returns those
    /// paths. The files in both trees are then owed a content check each.
    pub fn check_file_set(&mut self, installed: &Vec<String>) -> (r: Vec<String>)
        requires
            old(self).wf(),
            old(self).removals_begun(),
            old(self).removing() ==> old(self).removals_recorded() == old(self).removals().len()
                && old(self).directories_recorded() == old(self).directories().len(),
            !old(self).file_set_checked(),
            sorted_paths(strs(installed@)),
        ensures
            final(self).wf(),
            final(self).keeps_plan(old(self)),
            sorted_paths(strs(r@)),
            forall|x: Seq<char>| #[trigger] strs(r@).contains(x) <==> (old(self).source().contains(x) != strs(installed@).contains(x)),
            final(self).ops() == old(self).ops() + file_set_failures(strs(r@)),
            final(self).file_set_checked(),
            final(self).final_files() == strs(installed@),
            final(self).compared() == filter_by_membership(old(self).source(), strs(installed@), true),
            final(self).contents_recorded() == 0,
            final(self).contents_equal(),
    {
        let paths = mismatched_paths(&self.source, installed);
        let ghost start = self.ops();
        let mut i: usize = 0;
        while i < paths.len()
            invariant
                i <= paths.len(),
                self.source@ == old(self).source@,
                self.writes@ == old(self).writes@,
                self.removals@ == old(self).removals@,
                self.writes_done == old(self).writes_done,
                self.removals_done == old(self).removals_done,
                self.dirs@ == old(self).dirs@,
                self.dirs_done == old(self).dirs_done,
                self.removing == old(self).removing,
                self.removals_begun == old(self).removals_begun,
                self.checked == old(self).checked,
                self.all_equal == old(self).all_equal,
                self.ops() == start + file_set_failures(strs(paths@).take(i as int)),
            decreases paths.len() - i,
        {
            let m = "final installed file set does not match the artifact";
            proof { reveal_strlit("final installed file set does not match the artifact"); }
            let op = operation(LiveAction::Verify, LiveStatus::Failed, paths[i].as_str(), Some(m.to_owned()));
            let ghost before = self.ops();
            self.operations.push(op);
            assert(self.ops() == before.push(crate::live::op_view(op)));
            assert(file_set_failures(strs(paths@).take(i + 1)) == file_set_failures(strs(paths@).take(i as int)).push(
                crate::live::op_view(op),
            ));
            i = i + 1;
        }
        assert(strs(paths@).take(paths.len() as int) == strs(paths@));
        proof {
            if paths.len() > 0 {
                let k = start.len() as int;
                assert(self.ops()[k] == file_set_failures(strs(paths@))[0]);
                assert(self.ops()[k].1 == LiveStatus::Failed);
            } else {
                assert forall|x: Seq<char>| strs(self.source@).contains(x) == strs(installed@).contains(x) by {
                    if strs(self.source@).contains(x) != strs(installed@).contains(x) {
                        assert(strs(paths@).contains(x));
                    }
                }
            }
        }
        self.compare = shared_paths(&self.source, installed);
        self.final_files = copy_paths(installed);
        self.checked = true;
        self.contents_done = 0;
        self.all_equal = true;
        paths
    }

    /// The number of files owed a content check.
    pub fn compare_count(&self) -> (r: usize)
        ensures
            r == self.compared().len(),
    {
        self.compare.len()
    }

    /// The file at `k` among those owed a content check.
    pub fn compare_at(&self, k: usize) -> (r: String)
        requires
            k < self.compared().len(),
        ensures
            r@ == self.compared()[k as int],
    {
        self.compare[k].clone()
    }

    /// Records the content check of file `k` among those in both trees, the
    /// next one not yet recorded.
    pub fn record_content(&mut self, k: usize, event: ContentEvent)
        requires
            old(self).wf(),
            old(self).file_set_checked(),
            k == old(self).contents_recorded(),
            k < old(self).compared().len(),
        ensures
            final(self).wf(),
            final(self).keeps_plan(old(self)),
            final(self).ops() == old(self).ops() + content_outcome(old(self).compared()[k as int], event),
            final(self).file_set_checked(),
            final(self).final_files() == old(self).final_files(),
            final(self).compared() == old(self).compared(),
            final(self).contents_recorded() == old(self).contents_recorded() + 1,
            final(self).contents_equal() == (old(self).contents_equal() && event is Equal),
    {
        let ghost before = self.ops();
        let path = self.compare[k].clone();
        match event {
            ContentEvent::Equal => {
                assert(before + seq![] == before);
            },
            ContentEvent::Different => {
                let m = "installed bytes do not match the artifact";
                proof { reveal_strlit("installed bytes do not match the artifact"); }
                let op = operation(LiveAction::Verify, LiveStatus::Failed, path.as_str(), Some(m.to_owned()));
                self.operations.push(op);
                assert(self.ops() == before.push(crate::live::op_view(op)));
                assert(self.ops()[before.len() as int].1 == LiveStatus::Failed);
                self.all_equal = false;
            },
            ContentEvent::Failed(m) => {
                let op = operation(LiveAction::Verify, LiveStatus::Failed, path.as_str(), Some(m));
                self.operations.push(op);
                assert(self.ops() == before.push(crate::live::op_view(op)));
                assert(self.ops()[before.len() as int].1 == LiveStatus::Failed);
                self.all_equal = false;
            },
        }
        proof {
            if any_failed(before) {
                lemma_failure_persists(before, self.ops().skip(before.len() as int));
                assert(before + self.ops().skip(before.len() as int) == self.ops());
            }
        }
        self.contents_done = self.contents_done + 1;
    }

    /// Ends the synchronization of the installation at `path`, once every
    /// phase is recorded. When no recorded operation failed, the installed
    /// tree holds exactly the artifact's files and every one of them
    /// compared equal with the artifact.
    pub fn finish(self, path: String) -> (r: LiveInstallResult)
        requires
            self.wf(),
            self.file_set_checked(),
            self.contents_recorded() == self.compared().len(),
        ensures
            r.path@ == path@,
            r.ops() == self.ops(),
            !any_failed(r.ops()) ==> same_files(self.source(), self.final_files()) && self.contents_equal()
                && self.compared() == self.source(),
    {
        proof {
            if !any_failed(self.ops()) {
                assert forall|x: Seq<char>| #[trigger] self.source().contains(x) implies self.final_files().contains(x) by {}
                lemma_shared_prefix(self.source(), self.final_files());
            }
        }
        LiveInstallResult { path, operations: self.operations }
    }
}

/// Whether two file lists hold the same paths.
pub open spec fn same_files(a: Seq<Seq<char>>, b: Seq<Seq<char>>) -> bool {
    forall|x: Seq<char>| #[trigger] a.contains(x) == b.contains(x)
}

/// The paths of `a` also in `b` are all of `a` when `b` holds each of them.
proof fn lemma_shared_prefix(a: Seq<Seq<char>>, b: Seq<Seq<char>>)
    requires
        forall|x: Seq<char>| #[trigger] a.contains(x) ==> b.contains(x),
    ensures
        filter_by_membership(a, b, true) == a,
    decreases a.len(),
{
    if a.len() > 0 {
        let a0 = a.drop_last();
        assert(a.contains(a.last())) by { assert(a[a.len() - 1] == a.last()); }
        assert forall|x: Seq<char>| #[trigger] a0.contains(x) implies b.contains(x) by {
            let j = choose|j: int| 0 <= j < a0.len() && a0[j] == x;
            assert(a[j] == x);
            assert(a.contains(x));
        }
        lemma_shared_prefix(a0, b);
        assert(a0.push(a.last()) == a);
    }
}

/// The paths in exactly one of two sorted file lists, in path order.
pub fn mismatched_paths(expected: &Vec<String>, actual: &Vec<String>) -> (r: Vec<String>)
    requires
        sorted_paths(strs(expected@)),
        sorted_paths(strs(actual@)),
    ensures
        sorted_paths(strs(r@)),
        forall|x: Seq<char>| #[trigger] strs(r@).contains(x) <==> (strs(expected@).contains(x) != strs(actual@).contains(x)),
{
    let missing = select_by_membership(expected, actual, false);
    let extra = select_by_membership(actual, expected, false);
    proof {
        lemma_filter_by_membership(strs(expected@), strs(actual@), false);
        lemma_filter_by_membership(strs(actual@), strs(expected@), false);
    }
    merge_sorted(&missing, &extra)
}

/// The paths in both of two file lists, in the order of the first.
pub fn shared_paths(expected: &Vec<String>, actual: &Vec<String>) -> (r: Vec<String>)
    ensures
        strs(r@) == filter_by_membership(strs(expected@), strs(actual@), true),
        sorted_paths(strs(expected@)) ==> sorted_paths(strs(r@)),
        forall|x: Seq<char>| #[trigger] strs(r@).contains(x) <==> (strs(expected@).contains(x) && strs(actual@).contains(x)),
{
    proof {
        lemma_filter_by_membership(strs(expected@), strs(actual@), true);
    }
    select_by_membership(expected, actual, true)
}

/// The number of `/` separators in a path: one less than its components.
pub open spec fn separators(p: Seq<char>) -> nat
    decreases p.len(),
{
    if p.len() == 0 {
        0
    } else {
        separators(p.drop_last()) + (if p.last() == '/' { 1nat } else { 0nat })
    }
}

/// The paths of `s` with `d` separators, in their order in `s`.
pub open spec fn layer(s: Seq<Seq<char>>, d: nat) -> Seq<Seq<char>>
    decreases s.len(),
{
    if s.len() == 0 {
        seq![]
    } else if separators(s.last()) == d {
        layer(s.drop_last(), d).push(s.last())
    } else {
        layer(s.drop_last(), d)
    }
}

/// The layers of `s` from `d` separators down to none, deepest first.
pub open spec fn layers_down(s: Seq<Seq<char>>, d: int) -> Seq<Seq<char>>
    decreases d + 1,
{
    if d < 0 {
        seq![]
    } else {
        layer(s, d as nat) + layers_down(s, d - 1)
    }
}

/// The most separators in any path of `s`.
pub open spec fn max_separators(s: Seq<Seq<char>>) -> nat
    decreases s.len(),
{
    if s.len() == 0 {
        0
    } else {
        let m = max_separators(s.drop_last());
        if separators(s.last()) > m { separators(s.last()) } else { m }
    }
}

/// Directories ordered deepest first, as a stable sort by descending
/// component count orders them.
pub open spec fn deepest_first_of(s: Seq<Seq<char>>) -> Seq<Seq<char>> {
    layers_down(s, max_separators(s) as int)
}

fn count_separators(p: &str) -> (r: usize)
    ensures
        r == separators(p@),
{
    let v = crate::text::chars_of(p);
    let mut n: usize = 0;
    let mut i: usize = 0;
    while i < v.len()
        invariant
            i <= v.len(),
            v@ == p@,
            n <= i,
            n == separators(v@.take(i as int)),
        decreases v.len() - i,
    {
        assert(v@.take(i + 1).drop_last() == v@.take(i as int));
        if v[i] == '/' {
            n = n + 1;
        }
        i = i + 1;
    }
    assert(v@.take(v.len() as int) == v@);
    n
}

/// Orders directories deepest first, keeping the order of equally deep ones,
/// so that each is visited after everything inside it.
pub fn deepest_first(dirs: &Vec<String>) -> (r: Vec<String>)
    ensures
        strs(r@) == deepest_first_of(strs(dirs@)),
{
    let ghost s = strs(dirs@);
    let mut depths: Vec<usize> = Vec::new();
    let mut m: usize = 0;
    let mut i: usize = 0;
    while i < dirs.len()
        invariant
            i <= dirs.len(),
            s == strs(dirs@),
            depths.len() == i,
            forall|k: int| 0 <= k < i ==> #[trigger] depths@[k] == separators(s[k]),
            m == max_separators(s.take(i as int)),
        decreases dirs.len() - i,
    {
        assert(s.take(i + 1).drop_last() == s.take(i as int));
        let d = count_separators(dirs[i].as_str());
        depths.push(d);
        if d > m {
            m = d;
        }
        i = i + 1;
    }
    assert(s.take(dirs.len() as int) == s);
    let mut r: Vec<String> = Vec::new();
    let mut next: u128 = m as u128 + 1;
    while next > 0
        invariant
            next <= m as u128 + 1,
            s == strs(dirs@),
            depths.len() == dirs.len(),
            forall|k: int| 0 <= k < dirs.len() ==> #[trigger] depths@[k] == separators(s[k]),
            m == max_separators(s),
            strs(r@) + layers_down(s, next - 1) == layers_down(s, m as int),
        decreases next,
    {
        let d = (next - 1) as usize;
        let ghost before = strs(r@);
        let mut j: usize = 0;
        while j < dirs.len()
            invariant
                j <= dirs.len(),
                d == next - 1,
                s == strs(dirs@),
                depths.len() == dirs.len(),
                forall|k: int| 0 <= k < dirs.len() ==> #[trigger] depths@[k] == separators(s[k]),
                strs(r@) == before + layer(s.take(j as int), d as nat),
            decreases dirs.len() - j,
        {
            assert(s.take(j + 1).drop_last() == s.take(j as int));
            assert(s.take(j + 1).last() == s[j as int]);
            if depths[j] == d {
                let ghost mid = strs(r@);
                r.push(dirs[j].clone());
                assert(strs(r@) == mid.push(s[j as int]));
                assert(before + layer(s.take(j as int), d as nat).push(s[j as int]) == (before + layer(s.take(j as int), d as nat)).push(s[j as int]));
            }
            j = j + 1;
        }
        assert(s.take(dirs.len() as int) == s);
        assert(layers_down(s, next - 1) == layer(s, d as nat) + layers_down(s, next - 2));
        assert(strs(r@) + layers_down(s, next - 2) == before + layers_down(s, next - 1));
        next = next - 1;
    }
    assert(strs(r@) + seq![] == strs(r@));
    r
}


/// Every source file is planned exactly once, either kept as unchanged or
/// written; each write is of a source file, and it creates the file exactly
/// when no installed copy exists.
pub proof fn lemma_plan_covers_source(source: Seq<Seq<char>>, installed: Seq<Seq<char>>, same: Seq<bool>)
    requires
        same.len() == source.len(),
    ensures
        planned_unchanged(source, installed, same).len() + planned_writes(source, installed, same).len() == source.len(),
        forall|k: int| 0 <= k < planned_writes(source, installed, same).len() ==> {
            let w = #[trigger] planned_writes(source, installed, same)[k];
            &&& source.contains(w.1)
            &&& (w.0 == LiveAction::Create <==> !installed.contains(w.1))
            &&& (w.0 == LiveAction::Create || w.0 == LiveAction::Update)
        },
    decreases source.len(),
{
    if source.len() > 0 {
        let s0 = source.drop_last();
        let m0 = same.drop_last();
        lemma_plan_covers_source(s0, installed, m0);
        let rest = planned_writes(s0, installed, m0);
        let all = planned_writes(source, installed, same);
        assert forall|k: int| 0 <= k < all.len() implies {
            let w = #[trigger] all[k];
            &&& source.contains(w.1)
            &&& (w.0 == LiveAction::Create <==> !installed.contains(w.1))
            &&& (w.0 == LiveAction::Create || w.0 == LiveAction::Update)
        } by {
            if k < rest.len() {
                assert(all[k] == rest[k]);
                let j = choose|j: int| 0 <= j < s0.len() && s0[j] == rest[k].1;
                assert(source[j] == s0[j]);
            } else {
                assert(all[k].1 == source.last());
                assert(source[source.len() - 1] == source.last());
            }
        }
    }
}


/// Planning a source tree whose every file is installed with equal bytes
/// writes nothing and removes nothing: each file is recorded unchanged.
proof fn lemma_plan_of_installed_files(source: Seq<Seq<char>>, installed: Seq<Seq<char>>, same: Seq<bool>)
    requires
        same.len() == source.len(),
        forall|i: int| 0 <= i < same.len() ==> #[trigger] same[i],
        forall|i: int| 0 <= i < source.len() ==> installed.contains(#[trigger] source[i]),
    ensures
        planned_writes(source, installed, same).len() == 0,
        planned_unchanged(source, installed, same) == source.map_values(
            |p: Seq<char>| (LiveAction::Unchanged, LiveStatus::Unchanged, p, None::<Seq<char>>),
        ),
        filter_by_membership(source, installed, false).len() == 0,
    decreases source.len(),
{
    if source.len() > 0 {
        let s0 = source.drop_last();
        let m0 = same.drop_last();
        assert forall|i: int| 0 <= i < m0.len() implies #[trigger] m0[i] by {
            assert(m0[i] == same[i]);
        }
        assert forall|i: int| 0 <= i < s0.len() implies installed.contains(#[trigger] s0[i]) by {
            assert(s0[i] == source[i]);
        }
        lemma_plan_of_installed_files(s0, installed, m0);
        assert(same.last() == same[same.len() - 1]);
        assert(source.last() == source[source.len() - 1]);
        assert(installed.contains(source.last()));
        assert(source.map_values(|p: Seq<char>| (LiveAction::Unchanged, LiveStatus::Unchanged, p, None::<Seq<char>>))
            =~= s0.map_values(|p: Seq<char>| (LiveAction::Unchanged, LiveStatus::Unchanged, p, None::<Seq<char>>)).push(
            (LiveAction::Unchanged, LiveStatus::Unchanged, source.last(), None::<Seq<char>>),
        ));
    }
}

/// Synchronizing onto an installed tree that already holds the same files
/// with the same bytes (as after a complete synchronization) changes
/// nothing: no file is written or removed, and every file is recorded as
/// unchanged.
pub proof fn lemma_resync_changes_nothing(files: Seq<Seq<char>>, same: Seq<bool>)
    requires
        same.len() == files.len(),
        forall|i: int| 0 <= i < same.len() ==> #[trigger] same[i],
    ensures
        planned_writes(files, files, same).len() == 0,
        planned_unchanged(files, files, same) == files.map_values(
            |p: Seq<char>| (LiveAction::Unchanged, LiveStatus::Unchanged, p, None::<Seq<char>>),
        ),
        filter_by_membership(files, files, false).len() == 0,
{
    assert forall|i: int| 0 <= i < files.len() implies files.contains(#[trigger] files[i]) by {}
    lemma_plan_of_installed_files(files, files, same);
}

} // verus!
