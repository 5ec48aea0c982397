//! Live installation: the record of each file operation, and the decisions
//! that synchronize an existing installed copy with a freshly built artifact.
//!
//! The filesystem work (comparing, copying, removing) is done by the caller;
//! these functions decide what is compared, written, removed, or withheld,
//! and how each outcome is recorded. Paths are relative and `/`-separated.

use vstd::prelude::*;

use crate::paths::{lemma_path_lt_asymmetric, lemma_path_lt_irreflexive, lemma_path_lt_total, lemma_path_lt_transitive, path_less, path_lt, sorted_paths};
use crate::error::Error;
use crate::text::{chars_of, str_eq};

verus! {

/// One kind of filesystem change considered by live installation.
#[derive(Debug, Clone, Copy, PartialEq, Eq, Structural)]
pub enum LiveAction {
    /// Adds a file that was absent from the installation.
    Create,
    /// Replaces a file whose bytes differ from the artifact.
    Update,
    /// Deletes a file absent from the artifact.
    Remove,
    /// Retains an already identical file.
    Unchanged,
    /// Checks final installation contents after mutations.
    Verify,
    /// Removes an obsolete empty directory.
    CleanDirectory,
}

/// The stable name of an action.
pub open spec fn action_name(a: LiveAction) -> Seq<char> {
    match a {
        LiveAction::Create => "create"@,
        LiveAction::Update => "update"@,
        LiveAction::Remove => "remove"@,
        LiveAction::Unchanged => "unchanged"@,
        LiveAction::Verify => "verify"@,
        LiveAction::CleanDirectory => "clean_directory"@,
    }
}

impl LiveAction {
    /// Stable structured-output representation.
    pub fn as_str(self) -> (r: &'static str)
        ensures
            r@ == action_name(self),
    {
        match self {
            LiveAction::Create => "create",
            LiveAction::Update => "update",
            LiveAction::Remove => "remove",
            LiveAction::Unchanged => "unchanged",
            LiveAction::Verify => "verify",
            LiveAction::CleanDirectory => "clean_directory",
        }
    }
}

/// Outcome of one planned live-install operation.
#[derive(Debug, Clone, Copy, PartialEq, Eq, Structural)]
pub enum LiveStatus {
    /// Mutation and its verification succeeded.
    Applied,
    /// No mutation was needed.
    Unchanged,
    /// Mutation or verification failed.
    Failed,
    /// Mutation was withheld because an earlier write failed.
    Skipped,
}

/// The stable name of a status.
pub open spec fn status_name(s: LiveStatus) -> Seq<char> {
    match s {
        LiveStatus::Applied => "applied"@,
        LiveStatus::Unchanged => "unchanged"@,
        LiveStatus::Failed => "failed"@,
        LiveStatus::Skipped => "skipped"@,
    }
}

impl LiveStatus {
    /// Stable structured-output representation.
    pub fn as_str(self) -> (r: &'static str)
        ensures
            r@ == status_name(self),
    {
        match self {
            LiveStatus::Applied => "applied",
            LiveStatus::Unchanged => "unchanged",
            LiveStatus::Failed => "failed",
            LiveStatus::Skipped => "skipped",
        }
    }
}

/// Result of one file or directory operation during live installation.
#[derive(Debug)]
pub struct LiveOperation {
    /// Intended filesystem operation.
    pub action: LiveAction,
    /// Final outcome.
    pub status: LiveStatus,
    /// Path relative to the installed mod root.
    pub path: String,
    /// Failure or skip explanation, when applicable.
    pub message: Option<String>,
}

/// An operation as plain values.
pub type OpView = (LiveAction, LiveStatus, Seq<char>, Option<Seq<char>>);

/// The plain values of an optional string.
pub open spec fn opt_view(m: Option<String>) -> Option<Seq<char>> {
    match m {
        Some(s) => Some(s@),
        None => None,
    }
}

/// The plain values of an operation.
pub open spec fn op_view(o: LiveOperation) -> OpView {
    (o.action, o.status, o.path@, opt_view(o.message))
}

/// The plain values of a list of operations.
pub open spec fn ops_view(ops: Seq<LiveOperation>) -> Seq<OpView> {
    ops.map_values(|o: LiveOperation| op_view(o))
}

/// Produces one operation record.
pub fn operation(action: LiveAction, status: LiveStatus, path: &str, message: Option<String>) -> (r: LiveOperation)
    ensures
        op_view(r) == (action, status, path@, opt_view(message)),
{
    LiveOperation { action, status, path: path.to_owned(), message }
}

/// Completed live synchronization, including partial-failure information.
#[derive(Debug)]
pub struct LiveInstallResult {
    /// Existing local installation that was synchronized.
    pub path: String,
    /// Every planned or postcondition operation.
    pub operations: Vec<LiveOperation>,
}

/// Whether an outcome means the installation is not fully synchronized.
pub open spec fn is_problem(s: LiveStatus) -> bool {
    s == LiveStatus::Failed || s == LiveStatus::Skipped
}

/// The number of operations with one action and status.
pub open spec fn count_ops(ops: Seq<OpView>, a: LiveAction, s: LiveStatus) -> nat
    decreases ops.len(),
{
    if ops.len() == 0 {
        0
    } else {
        count_ops(ops.drop_last(), a, s) + (if ops.last().0 == a && ops.last().1 == s { 1nat } else { 0nat })
    }
}

/// The file name of a `/`-separated path: its last segment, unless that is
/// empty or `..`.
pub open spec fn file_name_of(p: Seq<char>) -> Option<Seq<char>> {
    let seg = last_segment(p);
    if seg.len() == 0 || seg == ".."@ {
        None
    } else {
        Some(seg)
    }
}

/// The text after the last `/`, or the whole path.
pub open spec fn last_segment(p: Seq<char>) -> Seq<char>
    decreases p.len(),
{
    if p.len() == 0 {
        p
    } else if p.last() == '/' {
        seq![]
    } else {
        last_segment(p.drop_last()).push(p.last())
    }
}

/// The last segment of a path is a suffix of it.
pub proof fn lemma_last_segment_suffix(p: Seq<char>)
    ensures
        last_segment(p).len() <= p.len(),
        p.skip(p.len() - last_segment(p).len()) == last_segment(p),
    decreases p.len(),
{
    if p.len() > 0 {
        if p.last() == '/' {
            assert(p.skip(p.len() as int) =~= Seq::<char>::empty());
        } else {
            lemma_last_segment_suffix(p.drop_last());
            let s = last_segment(p.drop_last());
            assert(p.skip(p.len() - s.len() - 1) =~= p.drop_last().skip(p.drop_last().len() - s.len()).push(p.last()));
        }
    }
}

/// The last `.` of a text is at a position inside it.
pub proof fn lemma_last_dot_in(s: Seq<char>)
    ensures
        last_dot(s) matches Some(i) ==> 0 <= i < s.len() && s[i] == '.',
    decreases s.len(),
{
    if s.len() > 0 && s.last() != '.' {
        lemma_last_dot_in(s.drop_last());
    }
}

/// An extension is a suffix of its path.
pub proof fn lemma_extension_suffix(p: Seq<char>)
    ensures
        extension_of(p) matches Some(e) ==> e.len() <= p.len() && p.skip(p.len() - e.len()) == e,
{
    lemma_last_segment_suffix(p);
    let seg = last_segment(p);
    lemma_last_dot_in(seg);
    if let Some(e) = extension_of(p) {
        let i = last_dot(seg)->0;
        assert(e == seg.skip(i + 1));
        assert(p.skip(p.len() - e.len()) =~= seg.skip(i + 1));
    }
}

/// Index of the last `.` in `s`.
pub open spec fn last_dot(s: Seq<char>) -> Option<int>
    decreases s.len(),
{
    if s.len() == 0 {
        None
    } else if s.last() == '.' {
        Some(s.len() - 1)
    } else {
        last_dot(s.drop_last())
    }
}

/// The extension of a file name as `Path::extension` gives it: the text after
/// the last `.`, unless that `.` starts the name.
pub open spec fn extension_of(p: Seq<char>) -> Option<Seq<char>> {
    match file_name_of(p) {
        None => None,
        Some(name) => match last_dot(name) {
            Some(i) => if i > 0 { Some(name.skip(i + 1)) } else { None },
            None => None,
        },
    }
}

/// ASCII lowercase of one character.
pub open spec fn ascii_lower(c: char) -> char {
    if 'A' <= c <= 'Z' {
        (((c as u32) + 32) as u8) as char
    } else {
        c
    }
}

/// Equality ignoring ASCII case (`str::eq_ignore_ascii_case`).
pub open spec fn eq_ignore_ascii_case(a: Seq<char>, b: Seq<char>) -> bool {
    a.len() == b.len() && forall|i: int| 0 <= i < a.len() ==> ascii_lower(#[trigger] a[i]) == ascii_lower(b[i])
}

/// Whether a path's extension equals `expected`, ignoring ASCII case.
pub open spec fn path_has_extension(p: Seq<char>, expected: Seq<char>) -> bool {
    extension_of(p) matches Some(e) && eq_ignore_ascii_case(e, expected)
}

/// Whether an applied mutation affected something other than a Lua file.
pub open spec fn non_lua_change(o: OpView) -> bool {
    o.1 == LiveStatus::Applied && (o.0 == LiveAction::Create || o.0 == LiveAction::Update || o.0
        == LiveAction::Remove) && !path_has_extension(o.2, "lua"@)
}

/// Whether an applied mutation added or removed a Lua file.
pub open spec fn lua_topology_change(o: OpView) -> bool {
    o.1 == LiveStatus::Applied && (o.0 == LiveAction::Create || o.0 == LiveAction::Remove)
        && path_has_extension(o.2, "lua"@)
}

/// Whether a path names a Lua file: its extension is `lua` in any ASCII case.
pub open spec fn is_lua_path(p: Seq<char>) -> bool {
    extension_of(p) matches Some(e) && e.len() == 3 && ascii_lower(e[0]) == 'l' && ascii_lower(e[1]) == 'u'
        && ascii_lower(e[2]) == 'a'
}

/// Adding or removing a Lua file changes the Lua file set: any applied
/// create or applied removal of a Lua path among the operations is a Lua
/// topology change, whatever else was done; and every applied create,
/// update or removal counts as exactly one of a Lua topology change and a
/// change of something other than Lua, except an update of a Lua file,
/// which is neither.
pub proof fn lemma_lua_file_set_changes(ops: Seq<OpView>, i: int)
    requires
        0 <= i < ops.len(),
    ensures
        ops[i].1 == LiveStatus::Applied && (ops[i].0 == LiveAction::Create || ops[i].0 == LiveAction::Remove)
            && is_lua_path(ops[i].2) ==> exists|j: int| 0 <= j < ops.len() && lua_topology_change(#[trigger] ops[j]),
        ops[i].1 == LiveStatus::Applied && (ops[i].0 == LiveAction::Create || ops[i].0 == LiveAction::Remove)
            ==> (lua_topology_change(ops[i]) <==> is_lua_path(ops[i].2)) && (non_lua_change(ops[i]) <==> !is_lua_path(ops[i].2)),
        ops[i].1 == LiveStatus::Applied && ops[i].0 == LiveAction::Update ==> !lua_topology_change(ops[i])
            && (non_lua_change(ops[i]) <==> !is_lua_path(ops[i].2)),
{
    reveal_strlit("lua");
    let p = ops[i].2;
    assert(is_lua_path(p) <==> path_has_extension(p, "lua"@)) by {
        if let Some(e) = extension_of(p) {
            if e.len() == 3 {
                assert(eq_ignore_ascii_case(e, "lua"@) <==> (ascii_lower(e[0]) == ascii_lower('l') && ascii_lower(e[1])
                    == ascii_lower('u') && ascii_lower(e[2]) == ascii_lower('a')));
            }
        }
    }
}

fn lower(c: char) -> (r: char)
    ensures
        r == ascii_lower(c),
{
    if 'A' <= c && c <= 'Z' {
        (((c as u32) + 32) as u8) as char
    } else {
        c
    }
}

/// Compares a path extension without platform-specific case sensitivity.
pub fn has_extension(path: &str, expected: &str) -> (r: bool)
    ensures
        r == path_has_extension(path@, expected@),
{
    let v = chars_of(path);
    let n = v.len();
    let mut s = n;
    assert(v@.take(n as int) == v@);
    assert(v@.subrange(n as int, n as int) == Seq::<char>::empty());
    while s > 0 && v[s - 1] != '/'
        invariant
            s <= n == v.len(),
            v@ == path@,
            last_segment(v@) == last_segment(v@.take(s as int)) + v@.subrange(s as int, n as int),
        decreases s,
    {
        assert(v@.take(s as int).drop_last() == v@.take(s - 1));
        assert(v@.subrange(s - 1, n as int) == seq![v@[s - 1]] + v@.subrange(s as int, n as int));
        s = s - 1;
    }
    proof {
        if s > 0 {
            assert(v@.take(s as int).last() == '/');
        }
        assert(last_segment(v@.take(s as int)).len() == 0);
        assert(last_segment(v@) == v@.subrange(s as int, n as int));
        assert(v@.take(n as int) == v@);
    }
    let ghost seg = v@.subrange(s as int, n as int);
    if s == n {
        return false;
    }
    if n - s == 2 && v[s] == '.' && v[s + 1] == '.' {
        assert(seg == ".."@) by {
            reveal_strlit("..");
            assert(seg =~= ".."@);
        }
        return false;
    }
    proof {
        reveal_strlit("..");
        if seg == ".."@ {
            assert(seg.len() == 2 && seg[0] == '.' && seg[1] == '.');
        }
    }
    let mut d = n;
    while d > s && v[d - 1] != '.'
        invariant
            s <= d <= n == v.len(),
            seg == v@.subrange(s as int, n as int),
            last_dot(seg) == last_dot(v@.subrange(s as int, d as int)),
        decreases d,
    {
        assert(v@.subrange(s as int, d as int).drop_last() == v@.subrange(s as int, d - 1));
        d = d - 1;
    }
    if d == s {
        assert(v@.subrange(s as int, d as int).len() == 0);
        return false;
    }
    assert(last_dot(v@.subrange(s as int, d as int)) == Some(d - 1 - s));
    if d - 1 == s {
        return false;
    }
    let e = chars_of(expected);
    let ghost ext = seg.skip(d - s);
    assert(ext == v@.subrange(d as int, n as int));
    assert(extension_of(path@) == Some(ext));
    if n - d != e.len() {
        return false;
    }
    let mut i: usize = 0;
    while i < e.len()
        invariant
            i <= e.len() == n - d,
            d <= n == v.len(),
            e@ == expected@,
            extension_of(path@) == Some(ext),
            ext == v@.subrange(d as int, n as int),
            forall|j: int| 0 <= j < i ==> ascii_lower(#[trigger] ext[j]) == ascii_lower(e@[j]),
        decreases e.len() - i,
    {
        if lower(v[d + i]) != lower(e[i]) {
            assert(ext[i as int] == v@[d + i]);
            assert(!eq_ignore_ascii_case(ext, expected@));
            return false;
        }
        assert(ext[i as int] == v@[d + i]);
        i = i + 1;
    }
    true
}

/// The extension of a `/`-separated path, as `Path::extension` gives it.
pub fn extension(path: &str) -> (r: Option<String>)
    ensures
        match extension_of(path@) {
            Some(e) => r matches Some(x) && x@ == e,
            None => r is None,
        },
{
    let v = chars_of(path);
    let n = v.len();
    let mut s = n;
    assert(v@.take(n as int) == v@);
    assert(v@.subrange(n as int, n as int) == Seq::<char>::empty());
    while s > 0 && v[s - 1] != '/'
        invariant
            s <= n == v.len(),
            v@ == path@,
            last_segment(v@) == last_segment(v@.take(s as int)) + v@.subrange(s as int, n as int),
        decreases s,
    {
        assert(v@.take(s as int).drop_last() == v@.take(s - 1));
        assert(v@.subrange(s - 1, n as int) == seq![v@[s - 1]] + v@.subrange(s as int, n as int));
        s = s - 1;
    }
    proof {
        if s > 0 {
            assert(v@.take(s as int).last() == '/');
        }
        assert(last_segment(v@.take(s as int)).len() == 0);
        assert(last_segment(v@) == v@.subrange(s as int, n as int));
    }
    let ghost seg = v@.subrange(s as int, n as int);
    if s == n {
        return None;
    }
    if n - s == 2 && v[s] == '.' && v[s + 1] == '.' {
        assert(seg == ".."@) by {
            reveal_strlit("..");
            assert(seg =~= ".."@);
        }
        return None;
    }
    proof {
        reveal_strlit("..");
        if seg == ".."@ {
            assert(seg.len() == 2 && seg[0] == '.' && seg[1] == '.');
        }
    }
    let mut d = n;
    while d > s && v[d - 1] != '.'
        invariant
            s <= d <= n == v.len(),
            seg == v@.subrange(s as int, n as int),
            last_dot(seg) == last_dot(v@.subrange(s as int, d as int)),
        decreases d,
    {
        assert(v@.subrange(s as int, d as int).drop_last() == v@.subrange(s as int, d - 1));
        d = d - 1;
    }
    if d == s {
        assert(v@.subrange(s as int, d as int).len() == 0);
        return None;
    }
    assert(last_dot(v@.subrange(s as int, d as int)) == Some(d - 1 - s));
    if d - 1 == s {
        return None;
    }
    assert(seg.skip(d - s) == v@.subrange(d as int, n as int));
    Some(crate::text::string_from_range(&v, d, n))
}

impl LiveInstallResult {
    /// The plain values of the recorded operations.
    pub open spec fn ops(&self) -> Seq<OpView> {
        ops_view(self.operations@)
    }

    /// Whether every planned mutation and final verification succeeded.
    pub fn is_complete(&self) -> (r: bool)
        ensures
            r == forall|i: int| 0 <= i < self.ops().len() ==> !is_problem(#[trigger] self.ops()[i].1),
    {
        let mut i: usize = 0;
        while i < self.operations.len()
            invariant
                i <= self.operations.len(),
                forall|j: int| 0 <= j < i ==> !is_problem(#[trigger] self.ops()[j].1),
            decreases self.operations.len() - i,
        {
            let s = self.operations[i].status;
            if s == LiveStatus::Failed || s == LiveStatus::Skipped {
                assert(self.ops()[i as int].1 == s);
                return false;
            }
            assert(self.ops()[i as int].1 == s);
            i = i + 1;
        }
        true
    }

    /// Counts operations with one action and status.
    pub fn count(&self, action: LiveAction, status: LiveStatus) -> (r: usize)
        ensures
            r == count_ops(self.ops(), action, status),
    {
        let mut n: usize = 0;
        let mut i: usize = 0;
        while i < self.operations.len()
            invariant
                i <= self.operations.len(),
                n <= i,
                n == count_ops(self.ops().take(i as int), action, status),
            decreases self.operations.len() - i,
        {
            assert(self.ops().take(i + 1).drop_last() == self.ops().take(i as int));
            assert(self.ops().take(i + 1).last() == op_view(self.operations@[i as int]));
            if self.operations[i].action == action && self.operations[i].status == status {
                n = n + 1;
            }
            i = i + 1;
        }
        assert(self.ops().take(self.operations.len() as int) == self.ops());
        n
    }

    /// Whether an applied mutation affected something other than a Lua file.
    pub fn has_non_lua_changes(&self) -> (r: bool)
        ensures
            r == exists|i: int| 0 <= i < self.ops().len() && non_lua_change(#[trigger] self.ops()[i]),
    {
        let mut i: usize = 0;
        while i < self.operations.len()
            invariant
                i <= self.operations.len(),
                forall|j: int| 0 <= j < i ==> !non_lua_change(#[trigger] self.ops()[j]),
            decreases self.operations.len() - i,
        {
            let o = &self.operations[i];
            assert(self.ops()[i as int] == op_view(*o));
            if o.status == LiveStatus::Applied && (o.action == LiveAction::Create || o.action
                == LiveAction::Update || o.action == LiveAction::Remove) && !has_extension(
                o.path.as_str(),
                "lua",
            ) {
                return true;
            }
            i = i + 1;
        }
        false
    }

    /// Whether applied mutations added or removed Lua source files.
    pub fn has_lua_topology_changes(&self) -> (r: bool)
        ensures
            r == exists|i: int| 0 <= i < self.ops().len() && lua_topology_change(#[trigger] self.ops()[i]),
    {
        let mut i: usize = 0;
        while i < self.operations.len()
            invariant
                i <= self.operations.len(),
                forall|j: int| 0 <= j < i ==> !lua_topology_change(#[trigger] self.ops()[j]),
            decreases self.operations.len() - i,
        {
            let o = &self.operations[i];
            assert(self.ops()[i as int] == op_view(*o));
            if o.status == LiveStatus::Applied && (o.action == LiveAction::Create || o.action
                == LiveAction::Remove) && has_extension(o.path.as_str(), "lua") {
                return true;
            }
            i = i + 1;
        }
        false
    }
}


/// Why an existing local copy cannot be synchronized in place, checked in
/// order: the mod ID would leave the mods root, the copy is missing, or the
/// copy is a link.
pub open spec fn live_destination_error(mod_id: Seq<char>, destination: Seq<char>, is_dir: bool, is_link: bool) -> Option<Seq<char>> {
    if !crate::artifact::direct_child(mod_id) {
        Some("unsafe live-install destination: "@ + destination)
    } else if !is_dir {
        Some("live installation requires an existing local copy at "@ + destination + "; run `km install` first"@)
    } else if is_link {
        Some("live installation does not support a linked mod directory: "@ + destination)
    } else {
        None
    }
}

fn project_error(prefix: &str, subject: &str, suffix: &str) -> (e: Error)
    ensures
        e.kind == crate::error::ErrorKind::Project,
        e.message@ == prefix@ + subject@ + suffix@,
{
    let mut m = String::new();
    crate::text::push_str(&mut m, prefix);
    crate::text::push_str(&mut m, subject);
    crate::text::push_str(&mut m, suffix);
    Error::project(m.as_str())
}

/// Checks the local copy at `destination` before synchronizing it in place.
pub fn check_live_destination(mod_id: &str, destination: &str, is_dir: bool, is_link: bool) -> (r: Result<(), Error>)
    ensures
        match live_destination_error(mod_id@, destination@, is_dir, is_link) {
            None => r is Ok,
            Some(m) => r matches Err(e) && e.kind == crate::error::ErrorKind::Project && e.message@ == m,
        },
{
    proof { reveal_strlit(""); }
    if !crate::artifact::is_direct_child(mod_id) {
        return Err(project_error("unsafe live-install destination: ", destination, ""));
    }
    if !is_dir {
        return Err(project_error("live installation requires an existing local copy at ", destination, "; run `km install` first"));
    }
    if is_link {
        return Err(project_error("live installation does not support a linked mod directory: ", destination, ""));
    }
    Ok(())
}

/// Refuses a local copy that, with links resolved, is not directly inside
/// the mods root with links resolved.
pub fn check_live_canonical(destination: &str, canonical_root: &str, canonical_destination: &str) -> (r: Result<(), Error>)
    ensures
        crate::layout::directly_inside(canonical_destination@, canonical_root@) ==> r is Ok,
        !crate::layout::directly_inside(canonical_destination@, canonical_root@) ==> (r matches Err(e)
            && e.kind == crate::error::ErrorKind::Project
            && e.message@ == "live-install destination resolves outside the mods root: "@ + destination@),
{
    proof { reveal_strlit(""); }
    if crate::layout::is_directly_inside(canonical_destination, canonical_root) {
        Ok(())
    } else {
        Err(project_error("live-install destination resolves outside the mods root: ", destination, ""))
    }
}

/// Refuses a local copy whose installed metadata names another mod.
pub fn check_installed_id(destination: &str, mod_id: &str, installed_id: &str) -> (r: Result<(), Error>)
    ensures
        installed_id@ == mod_id@ ==> r is Ok,
        installed_id@ != mod_id@ ==> (r matches Err(e) && e.kind == crate::error::ErrorKind::Project
            && e.message@ == "installed mod ID `"@ + installed_id@ + "` does not match `"@ + mod_id@ + "` at "@ + destination@),
{
    if str_eq(installed_id, mod_id) {
        Ok(())
    } else {
        let mut m = String::new();
        crate::text::push_str(&mut m, "installed mod ID `");
        crate::text::push_str(&mut m, installed_id);
        crate::text::push_str(&mut m, "` does not match `");
        crate::text::push_str(&mut m, mod_id);
        crate::text::push_str(&mut m, "` at ");
        crate::text::push_str(&mut m, destination);
        Err(Error::project(m.as_str()))
    }
}

} // verus!
