use dedup_cleaner::grouper::{apply_hashes, build_groups, hash_candidates};
use dedup_cleaner::manager::FileManager;

#[test]
fn manager_defaults() {
    let m = FileManager::new("C:\\Backups".to_string());
    assert_eq!(m.backup_directory, "C:\\Backups");
    assert_eq!(m.max_file_size, 100 * 1024 * 1024);
    assert_eq!(m.excluded_paths.len(), 5);
    assert_eq!(m.excluded_paths[0], "C:\\Windows\\System32");
    assert_eq!(m.excluded_paths[4], "C:\\System Volume Information");
    assert!(m.scan_results.is_empty());
}

#[test]
fn excluded_directories_are_skipped() {
    let m = FileManager::new("C:\\Backups".to_string());
    assert!(m.should_exclude_dir("C:\\Windows\\System32"));
    assert!(m.should_exclude_dir("C:\\Windows\\System32\\drivers"));
    assert!(m.should_exclude_dir("C:\\$Recycle.Bin\\S-1-5"));
    assert!(!m.should_exclude_dir("C:\\Users\\me"));
    assert!(!m.should_exclude_dir("C:\\Windows\\System32Extra"));
}

#[test]
fn admission_rules() {
    let m = FileManager::new("C:\\Backups".to_string());
    // too large
    assert!(m.admit_file("D:\\big.bin".to_string(), 200 * 1024 * 1024, 1).is_none());
    // exactly at the ceiling is still admitted
    assert!(m.admit_file("D:\\edge.bin".to_string(), 100 * 1024 * 1024, 1).is_some());
    assert!(m.admit_file("D:\\over.bin".to_string(), 100 * 1024 * 1024 + 1, 1).is_none());
    // system file
    assert!(m.admit_file("C:\\Windows\\a.txt".to_string(), 10, 1).is_none());
    // critical extension
    assert!(m.admit_file("D:\\lib.dll".to_string(), 10, 1).is_none());
    // admitted
    let f = m.admit_file("D:\\Report.PDF".to_string(), 10, 42).unwrap();
    assert_eq!(f.path, "D:\\Report.PDF");
    assert_eq!(f.size, 10);
    assert_eq!(f.modified, 42);
    assert_eq!(f.hash, "");
    assert_eq!(f.file_type, "pdf");
    assert!(!f.is_system_file);
    assert!(!f.is_critical);
}

#[test]
fn scan_is_assembled_and_stored() {
    let mut m = FileManager::new("C:\\Backups".to_string());
    let a = m.admit_file("D:\\a.txt".to_string(), 1000, 1).unwrap();
    let b = m.admit_file("D:\\b.txt".to_string(), 1000, 2).unwrap();
    let c = m.admit_file("D:\\c.txt".to_string(), 500, 3).unwrap();
    let all_files = vec![a, b, c];
    let candidates = hash_candidates(&all_files);
    assert_eq!(candidates.len(), 2);
    let hashes = vec![Ok("h1".to_string()), Ok("h1".to_string())];
    let (hashed, errors) = apply_hashes(candidates, hashes);
    let groups = build_groups(&hashed);
    let result = m.finish_scan(
        "scan_1".to_string(),
        vec!["D:\\".to_string()],
        &all_files,
        groups,
        errors,
        17,
    );
    assert_eq!(result.total_files, 3);
    assert_eq!(result.total_size, 2500);
    assert_eq!(result.duplicate_groups.len(), 1);
    assert_eq!(result.duplicate_groups[0].potential_savings, 1000);
    assert_eq!(result.scan_duration_ms, 17);
    assert_eq!(result.scanned_directories, vec!["D:\\".to_string()]);
    assert!(result.errors.is_empty());

    let read_back = m.get_scan_result("scan_1").unwrap();
    assert_eq!(read_back.total_files, 3);
    assert_eq!(read_back.total_size, 2500);
    assert_eq!(read_back.duplicate_groups.len(), 1);
    assert!(m.get_scan_result("scan_missing").is_none());
}

#[test]
fn whole_scan_run_over_walked_records() {
    let mut m = FileManager::new("C:\\Backups".to_string());
    let all_files = vec![
        m.admit_file("D:\\a.txt".to_string(), 1000, 1).unwrap(),
        m.admit_file("D:\\b.txt".to_string(), 1000, 2).unwrap(),
        m.admit_file("D:\\c.txt".to_string(), 1000, 3).unwrap(),
    ];
    // one outcome per candidate: all three share the size, so all are hashed
    assert_eq!(hash_candidates(&all_files).len(), 3);
    let hashes = vec![
        Ok("h1".to_string()),
        Ok("h1".to_string()),
        Ok("h2".to_string()),
    ];
    let walk_errors = vec!["Failed to scan E:\\gone: not found".to_string()];
    let r = m.scan_duplicates(
        "scan_7".to_string(),
        vec!["D:\\".to_string()],
        &all_files,
        hashes,
        walk_errors,
        5,
    );
    assert_eq!(r.total_files, 3);
    assert_eq!(r.total_size, 3000);
    assert_eq!(r.duplicate_groups.len(), 1);
    assert_eq!(r.duplicate_groups[0].hash, "h1");
    assert_eq!(r.duplicate_groups[0].potential_savings, 1000);
    assert_eq!(r.errors, vec!["Failed to scan E:\\gone: not found".to_string()]);
    assert!(m.get_scan_result("scan_7").is_some());
}

#[test]
fn stored_scan_ids_are_listed_in_order() {
    let mut m = FileManager::new("C:\\Backups".to_string());
    assert!(m.list_scan_ids().is_empty());
    m.finish_scan("first".to_string(), vec![], &vec![], vec![], vec![], 1);
    m.finish_scan("second".to_string(), vec![], &vec![], vec![], vec![], 2);
    assert_eq!(m.list_scan_ids(), vec!["first".to_string(), "second".to_string()]);
}

#[test]
fn per_directory_error_format() {
    assert_eq!(
        dedup_cleaner::messages::scan_failure_message("D:\\gone", "not found"),
        "Failed to scan D:\\gone: not found"
    );
}

#[test]
fn later_scan_under_same_id_wins() {
    let mut m = FileManager::new("C:\\Backups".to_string());
    let first = vec![m.admit_file("D:\\a.txt".to_string(), 10, 1).unwrap()];
    m.finish_scan("scan".to_string(), vec![], &first, vec![], vec![], 1);
    let second = vec![
        m.admit_file("D:\\a.txt".to_string(), 10, 1).unwrap(),
        m.admit_file("D:\\b.txt".to_string(), 20, 2).unwrap(),
    ];
    m.finish_scan("scan".to_string(), vec![], &second, vec![], vec![], 2);
    let r = m.get_scan_result("scan").unwrap();
    assert_eq!(r.total_files, 2);
    assert_eq!(r.scan_duration_ms, 2);
}
