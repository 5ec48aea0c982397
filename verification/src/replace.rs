//! Atomic directory replacement: the decisions between the renames.
//!
//! A replacement moves the existing destination to a backup, moves the
//! staged directory into place, and removes the backup. The caller performs
//! each rename and removal; these functions decide what a failure means and
//! how it is reported.

use vstd::prelude::*;

use crate::error::{Error, ErrorKind};
use crate::text::push_str;

verus! {

/// A failed filesystem operation as the caller observed it.
pub struct IoFailure {
    /// The operating system's description of the failure.
    pub message: String,
    /// Whether the failure was a permission denial.
    pub permission_denied: bool,
}

/// Result of replacing a destination, including non-fatal cleanup information.
#[derive(Debug)]
pub struct AtomicReplaceResult {
    /// Warning produced when the old backup could not be removed after replacement.
    pub cleanup_warning: Option<String>,
}

/// The recovery hint for a permission denial.
pub open spec fn busy_hint() -> Seq<char> {
    " Project Zomboid or another program may be using these files; close it and try again."@
}

/// The report of a failed rename of the destination, with recovery guidance
/// when permission was denied.
pub open spec fn destination_error_text(action: Seq<char>, destination: Seq<char>, message: Seq<char>, denied: bool) -> Seq<char> {
    action + " "@ + destination + ": "@ + message + "."@ + (if denied { busy_hint() } else { seq![] })
}

/// Whether an error is an I/O error with the given message.
pub open spec fn is_io_error(e: Error, m: Seq<char>) -> bool {
    e.kind == ErrorKind::Io && e.message@ == m && e.exit_code == 1
}

/// Adds destination context and recovery guidance to a filesystem failure.
pub fn destination_error(failure: &IoFailure, destination: &str, action: &str) -> (r: Error)
    ensures
        is_io_error(r, destination_error_text(action@, destination@, failure.message@, failure.permission_denied)),
{
    let mut m = String::new();
    push_str(&mut m, action);
    push_str(&mut m, " ");
    push_str(&mut m, destination);
    push_str(&mut m, ": ");
    push_str(&mut m, failure.message.as_str());
    push_str(&mut m, ".");
    if failure.permission_denied {
        push_str(&mut m, " Project Zomboid or another program may be using these files; close it and try again.");
    }
    proof {
        reveal_strlit(" ");
        reveal_strlit(": ");
        reveal_strlit(".");
    }
    assert(m@ =~= destination_error_text(action@, destination@, failure.message@, failure.permission_denied));
    Error::io_text(m.as_str())
}

/// What to do after the staged directory could not be moved into place.
#[derive(Debug, Clone, Copy, PartialEq, Eq, Structural)]
pub enum InstallRecovery {
    /// Another replacement installed its directory first: keep it, and
    /// report where the previous directory was preserved.
    ReportWinner,
    /// Move the backup back into place, then report the failure.
    RollBack,
    /// Nothing was moved aside: report the failure.
    Report,
}

/// Decides how to recover from a failed install, given whether the backup
/// and the destination exist afterwards.
pub fn after_failed_install(backup_exists: bool, destination_exists: bool) -> (r: InstallRecovery)
    ensures
        r == (if !backup_exists {
            InstallRecovery::Report
        } else if destination_exists {
            InstallRecovery::ReportWinner
        } else {
            InstallRecovery::RollBack
        }),
{
    if !backup_exists {
        InstallRecovery::Report
    } else if destination_exists {
        InstallRecovery::ReportWinner
    } else {
        InstallRecovery::RollBack
    }
}

/// The report of an install that lost to a concurrent replacement.
pub fn winner_error(destination: &str, backup: &str, failure: &IoFailure) -> (r: Error)
    ensures
        is_io_error(r, "could not install "@ + destination@ + " because another replacement won: "@ + failure.message@
            + "; previous directory preserved at "@ + backup@),
{
    let mut m = String::new();
    push_str(&mut m, "could not install ");
    push_str(&mut m, destination);
    push_str(&mut m, " because another replacement won: ");
    push_str(&mut m, failure.message.as_str());
    push_str(&mut m, "; previous directory preserved at ");
    push_str(&mut m, backup);
    Error::io_text(m.as_str())
}

/// The report of an install whose rollback also failed.
pub fn rollback_error(destination: &str, failure: &IoFailure, rollback: &str) -> (r: Error)
    ensures
        is_io_error(r, "could not install "@ + destination@ + ": "@ + failure.message@ + "; rollback also failed: "@ + rollback@),
{
    let mut m = String::new();
    push_str(&mut m, "could not install ");
    push_str(&mut m, destination);
    push_str(&mut m, ": ");
    push_str(&mut m, failure.message.as_str());
    push_str(&mut m, "; rollback also failed: ");
    push_str(&mut m, rollback);
    Error::io_text(m.as_str())
}

/// The outcome of a replacement whose backup removal succeeded or failed:
/// a failed removal is a warning, never an error.
pub fn finish_replacement(backup: &str, removal: Result<(), String>) -> (r: AtomicReplaceResult)
    ensures
        match removal {
            Ok(()) => r.cleanup_warning is None,
            Err(e) => r.cleanup_warning matches Some(w) && w@ == "replacement succeeded, but old backup "@ + backup@
                + " could not be removed: "@ + e@,
        },
{
    match removal {
        Ok(()) => AtomicReplaceResult { cleanup_warning: None },
        Err(e) => {
            let mut m = String::new();
            push_str(&mut m, "replacement succeeded, but old backup ");
            push_str(&mut m, backup);
            push_str(&mut m, " could not be removed: ");
            push_str(&mut m, e.as_str());
            AtomicReplaceResult { cleanup_warning: Some(m) }
        },
    }
}

} // verus!
