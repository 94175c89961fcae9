use dedup_cleaner::cleanup::{
    approve_deletions, backup_archive_name, cleanup_aborted, filter_older_than, finish_cleanup,
};
use dedup_cleaner::model::{DuplicateGroup, FileInfo, KeepStrategy};
use dedup_cleaner::retention::files_to_remove;

fn record(path: &str, size: u64, modified: i64, critical: bool) -> FileInfo {
    FileInfo {
        path: path.to_string(),
        size,
        modified,
        hash: "h".to_string(),
        file_type: "txt".to_string(),
        is_system_file: false,
        is_critical: critical,
    }
}

#[test]
fn critical_flag_blocks_deletion() {
    let files = vec![
        record("D:\\safe.txt", 10, 1, false),
        record("D:\\precious.txt", 10, 2, true),
    ];
    let (approved, rejected) = approve_deletions(&files);
    assert_eq!(approved.len(), 1);
    assert_eq!(approved[0].path, "D:\\safe.txt");
    assert_eq!(rejected.len(), 1);
    assert_eq!(rejected[0], "Attempting to delete critical file: D:\\precious.txt");
}

#[test]
fn critical_path_blocks_deletion_even_unflagged() {
    let files = vec![
        record("D:\\tool.dll", 10, 1, false),
        record("C:\\Windows\\System32\\note.txt", 10, 2, false),
    ];
    let (approved, rejected) = approve_deletions(&files);
    assert!(approved.is_empty());
    assert_eq!(rejected.len(), 2);
}

#[test]
fn critical_files_survive_every_strategy() {
    for strategy in [
        KeepStrategy::KeepNewest,
        KeepStrategy::KeepOldest,
        KeepStrategy::KeepInSystem,
        KeepStrategy::KeepInProgramFiles,
    ] {
        let files = vec![
            record("D:\\copy1.txt", 10, 1, true),
            record("D:\\copy2.txt", 10, 2, true),
        ];
        let total: u64 = 20;
        let group = DuplicateGroup {
            hash: "h".to_string(),
            size: 10,
            files,
            total_size: total,
            potential_savings: 10,
        };
        let groups = vec![group];
        let removals = files_to_remove(&groups, &strategy);
        let (approved, _rejected) = approve_deletions(&removals);
        assert!(approved.is_empty());
    }
}

#[test]
fn deletion_outcomes_are_accounted() {
    let approved = vec![
        record("D:\\a", 100, 1, false),
        record("D:\\b", 200, 2, false),
        record("D:\\c", 300, 3, false),
    ];
    let outcomes: Vec<Result<(), String>> = vec![
        Ok(()),
        Err("access denied".to_string()),
        Ok(()),
    ];
    let prior = vec!["earlier trouble".to_string()];
    let r = finish_cleanup(&approved, &outcomes, prior, false, None);
    assert_eq!(r.files_removed, 2);
    assert_eq!(r.space_freed, 400);
    assert_eq!(
        r.errors,
        vec![
            "earlier trouble".to_string(),
            "Failed to delete D:\\b: access denied".to_string()
        ]
    );
    assert!(!r.backup_created);
    assert!(r.backup_path.is_none());
}

#[test]
fn backup_failure_aborts_with_no_deletions() {
    let r = cleanup_aborted("disk full");
    assert_eq!(r.files_removed, 0);
    assert_eq!(r.space_freed, 0);
    assert!(!r.backup_created);
    assert!(r.backup_path.is_none());
    assert_eq!(r.errors, vec!["Failed to create backup: disk full".to_string()]);
    assert!(!r.errors.is_empty());
}

#[test]
fn backup_name_carries_timestamp() {
    assert_eq!(
        backup_archive_name("20240101_120000"),
        "cleanup_backup_20240101_120000.zip"
    );
}

#[test]
fn temp_cleanup_keeps_only_old_files() {
    let files = vec![
        record("D:\\tmp\\old", 1, 100, false),
        record("D:\\tmp\\new", 1, 900, false),
        record("D:\\tmp\\edge", 1, 500, false),
    ];
    let old = filter_older_than(&files, 500);
    assert_eq!(old.len(), 1);
    assert_eq!(old[0].path, "D:\\tmp\\old");
}

#[test]
fn scan_identifier_format() {
    assert_eq!(
        dedup_cleaner::cleanup::scan_identifier("1700000000"),
        "scan_1700000000"
    );
}

#[test]
fn temp_cutoff_is_seven_days() {
    assert_eq!(dedup_cleaner::cleanup::temp_file_cutoff(1_000_000), 1_000_000 - 7 * 24 * 3600);
}
