use knoxmancer::live::{LiveAction, LiveStatus};
use knoxmancer::sync::{
    deepest_first, mismatched_paths, needs_comparison, shared_paths, ContentEvent, DirectoryEvent, LiveSync, RemovalEvent,
    WriteEvent,
};

fn names(list: &[&str]) -> Vec<String> {
    list.iter().map(|s| s.to_string()).collect()
}

/// Runs every planned write with the event that `outcome` gives for its path.
fn apply_writes(sync: &mut LiveSync, outcome: impl Fn(&str) -> WriteEvent) {
    for k in 0..sync.write_count() {
        let (_, path) = sync.write_at(k);
        sync.record_write(k, outcome(&path));
    }
}

/// Checks the final file set and records every content check as equal.
fn verify_equal_tree(sync: &mut LiveSync, installed: &Vec<String>) -> Vec<String> {
    let differing = sync.check_file_set(installed);
    for k in 0..sync.compare_count() {
        sync.record_content(k, ContentEvent::Equal);
    }
    differing
}

#[test]
fn synchronizes_and_verifies_changed_files() {
    let source = names(&["42/asset.txt", "42/media/lua/client/created.lua", "42/media/lua/client/updated.lua", "42/mod.info"]);
    let installed = names(&["42/asset.txt", "42/media/lua/client/removed.lua", "42/media/lua/client/updated.lua", "42/mod.info"]);
    let needed = needs_comparison(&source, &installed);
    assert_eq!(needed, [true, false, true, true]);
    let same = vec![false, false, false, false];
    let directories = names(&[
        "42",
        "42/media",
        "42/media/lua",
        "42/media/lua/client",
        "42/media/lua/client/obsolete",
        "42/media/lua/client/obsolete/empty",
    ]);
    let mut sync = LiveSync::plan(&source, &installed, &directories, &same);
    assert_eq!(sync.write_count(), 4);
    assert_eq!(sync.write_at(1), (LiveAction::Create, "42/media/lua/client/created.lua".to_owned()));
    apply_writes(&mut sync, |_| WriteEvent::Compared(true));
    assert!(sync.begin_removals());
    assert_eq!(sync.removal_count(), 1);
    assert_eq!(sync.removal_at(0), "42/media/lua/client/removed.lua");
    sync.record_removal(0, RemovalEvent::Removed { still_exists: false });
    assert_eq!(sync.directory_count(), 6);
    assert_eq!(sync.directory_at(0), "42/media/lua/client/obsolete/empty");
    assert_eq!(sync.directory_at(1), "42/media/lua/client/obsolete");
    for k in 0..sync.directory_count() {
        let event = if sync.directory_at(k).contains("obsolete") { DirectoryEvent::Removed } else { DirectoryEvent::NotEmpty };
        sync.record_directory(k, event);
    }
    assert!(verify_equal_tree(&mut sync, &source).is_empty());
    let result = sync.finish("mods/Example".to_owned());

    assert!(result.is_complete());
    assert_eq!(result.count(LiveAction::Create, LiveStatus::Applied), 1);
    assert_eq!(result.count(LiveAction::Update, LiveStatus::Applied), 3);
    assert_eq!(result.count(LiveAction::Remove, LiveStatus::Applied), 1);
    assert_eq!(result.count(LiveAction::CleanDirectory, LiveStatus::Applied), 2);
    assert!(result.has_non_lua_changes());
    assert!(result.has_lua_topology_changes());

    let mut again = LiveSync::plan(&source, &source, &Vec::new(), &vec![true, true, true, true]);
    assert_eq!(again.write_count(), 0);
    assert!(again.begin_removals());
    assert_eq!(again.removal_count(), 0);
    assert!(verify_equal_tree(&mut again, &source).is_empty());
    let unchanged = again.finish("mods/Example".to_owned());
    assert!(unchanged.is_complete());
    assert_eq!(unchanged.count(LiveAction::Unchanged, LiveStatus::Unchanged), source.len());
}

#[test]
fn reports_final_file_set_content_and_comparison_failures() {
    let source = names(&["mismatch.lua", "missing.lua", "unreadable.lua"]);
    let installed = names(&["extra.lua", "mismatch.lua", "unreadable.lua"]);
    let mut sync = LiveSync::plan(&source, &source, &Vec::new(), &vec![true, true, true]);
    assert!(sync.begin_removals());
    let differing = sync.check_file_set(&installed);
    assert_eq!(differing, ["extra.lua", "missing.lua"]);
    assert_eq!(mismatched_paths(&source, &installed), differing);
    let shared = shared_paths(&source, &installed);
    assert_eq!(shared, ["mismatch.lua", "unreadable.lua"]);
    assert_eq!(sync.compare_count(), 2);
    assert_eq!(sync.compare_at(0), "mismatch.lua");
    sync.record_content(0, ContentEvent::Different);
    sync.record_content(1, ContentEvent::Failed("permission denied".to_owned()));
    let result = sync.finish("installed".to_owned());
    let verify: Vec<_> = result.operations.iter().filter(|o| o.action == LiveAction::Verify).collect();
    assert_eq!(verify.len(), 4);
    assert!(verify.iter().all(|o| o.status == LiveStatus::Failed && o.message.is_some()));
    assert_eq!(verify[0].message.as_deref(), Some("final installed file set does not match the artifact"));
    assert_eq!(verify[2].message.as_deref(), Some("installed bytes do not match the artifact"));
    assert_eq!(verify[3].message.as_deref(), Some("permission denied"));
}

#[test]
fn reports_persisted_removals_and_directory_cleanup_failures() {
    let source = names(&["42/mod.info"]);
    let installed = names(&["42/mod.info", "42/preserved.lua"]);
    let mut sync = LiveSync::plan(&source, &installed, &names(&["42", "42/locked-empty"]), &vec![true]);
    assert!(sync.begin_removals());
    sync.record_removal(0, RemovalEvent::Removed { still_exists: true });
    assert_eq!(sync.directory_at(0), "42/locked-empty");
    sync.record_directory(0, DirectoryEvent::Failed("permission denied".to_owned()));
    sync.record_directory(1, DirectoryEvent::NotEmpty);
    assert_eq!(verify_equal_tree(&mut sync, &installed), ["42/preserved.lua"]);
    let result = sync.finish("Example".to_owned());
    assert!(!result.is_complete());
    assert!(result.operations.iter().any(|o| o.path.ends_with("preserved.lua")
        && o.action == LiveAction::Remove
        && o.status == LiveStatus::Failed
        && o.message.as_deref() == Some("file still exists after removal")));
    assert!(result.operations.iter().any(|o| o.path.ends_with("locked-empty")
        && o.action == LiveAction::CleanDirectory
        && o.status == LiveStatus::Failed));
}

#[test]
fn reports_copy_failure_and_withholds_removals() {
    let source = names(&["42/locked.lua", "42/mod.info"]);
    let installed = names(&["42/mod.info", "42/stale.lua"]);
    let mut sync = LiveSync::plan(&source, &installed, &names(&["42"]), &vec![false, true]);
    apply_writes(&mut sync, |_| WriteEvent::CopyFailed("permission denied".to_owned()));
    assert!(sync.write_failed());
    assert!(!sync.begin_removals());
    verify_equal_tree(&mut sync, &installed);
    let result = sync.finish("Example".to_owned());
    assert!(!result.is_complete());
    assert!(result.operations.iter().any(|o| o.path.ends_with("locked.lua") && o.status == LiveStatus::Failed));
    assert!(result.operations.iter().any(|o| o.path.ends_with("stale.lua")
        && o.status == LiveStatus::Skipped
        && o.message.as_deref() == Some("not removed because a file update failed")));
    assert_eq!(result.count(LiveAction::Remove, LiveStatus::Applied), 0);
}

#[test]
fn reports_removal_failures() {
    let source = names(&["42/mod.info"]);
    let installed = names(&["42/mod.info", "42/stale.lua"]);
    let mut sync = LiveSync::plan(&source, &installed, &Vec::new(), &vec![true]);
    assert!(sync.begin_removals());
    sync.record_removal(0, RemovalEvent::RemoveFailed("permission denied".to_owned()));
    verify_equal_tree(&mut sync, &installed);
    let result = sync.finish("Example".to_owned());
    assert!(!result.is_complete());
    assert!(result.operations.iter().any(|o| o.path.ends_with("stale.lua") && o.status == LiveStatus::Failed));
}

#[test]
fn reports_verification_mismatches() {
    let source = names(&["42/mismatch.lua", "42/mod.info"]);
    let installed = names(&["42/mod.info"]);
    let mut sync = LiveSync::plan(&source, &installed, &names(&["42"]), &vec![false, true]);
    assert_eq!(sync.write_count(), 1);
    apply_writes(&mut sync, |_| WriteEvent::Compared(false));
    assert!(!sync.begin_removals());
    verify_equal_tree(&mut sync, &source);
    let result = sync.finish("Example".to_owned());
    assert!(!result.is_complete());
    assert!(result.operations.iter().any(|o| o.path.ends_with("mismatch.lua")
        && o.action == LiveAction::Create
        && o.status == LiveStatus::Failed
        && o.message.as_deref() == Some("copied bytes failed verification")));
}

#[test]
fn orders_directories_deepest_first() {
    let dirs = names(&["42", "42/media", "42/media/lua", "42/other", "42/media/lua/client"]);
    assert_eq!(deepest_first(&dirs), ["42/media/lua/client", "42/media/lua", "42/media", "42/other", "42"]);
}
