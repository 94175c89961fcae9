use dedup_cleaner::model::{DuplicateGroup, FileInfo, KeepStrategy};
use dedup_cleaner::retention::{files_to_remove, partition_group};

fn record(path: &str, size: u64, modified: i64, hash: &str) -> FileInfo {
    FileInfo {
        path: path.to_string(),
        size,
        modified,
        hash: hash.to_string(),
        file_type: "txt".to_string(),
        is_system_file: false,
        is_critical: false,
    }
}

fn group_of(files: Vec<FileInfo>) -> DuplicateGroup {
    let size = files[0].size;
    let total: u64 = files.iter().map(|f| f.size).sum();
    DuplicateGroup {
        hash: files[0].hash.clone(),
        size,
        files,
        total_size: total,
        potential_savings: total - size,
    }
}

#[test]
fn newest_wins_keeps_later_timestamp() {
    let g = group_of(vec![
        record("D:\\old", 10, 100, "h"),
        record("D:\\new", 10, 200, "h"),
    ]);
    let (keep, remove) = partition_group(&g, &KeepStrategy::KeepNewest);
    assert_eq!(keep.len(), 1);
    assert_eq!(keep[0].path, "D:\\new");
    assert_eq!(remove.len(), 1);
    assert_eq!(remove[0].path, "D:\\old");
}

#[test]
fn oldest_wins_keeps_earlier_timestamp() {
    let g = group_of(vec![
        record("D:\\old", 10, 100, "h"),
        record("D:\\new", 10, 200, "h"),
    ]);
    let (keep, remove) = partition_group(&g, &KeepStrategy::KeepOldest);
    assert_eq!(keep.len(), 1);
    assert_eq!(keep[0].path, "D:\\old");
    assert_eq!(remove.len(), 1);
    assert_eq!(remove[0].path, "D:\\new");
}

#[test]
fn modified_ties_keep_the_first() {
    let g = group_of(vec![
        record("D:\\first", 10, 100, "h"),
        record("D:\\second", 10, 100, "h"),
        record("D:\\third", 10, 100, "h"),
    ]);
    let (keep, remove) = partition_group(&g, &KeepStrategy::KeepNewest);
    assert_eq!(keep.len(), 1);
    assert_eq!(keep[0].path, "D:\\first");
    assert_eq!(remove.len(), 2);
    assert_eq!(remove[0].path, "D:\\second");
    assert_eq!(remove[1].path, "D:\\third");
}

#[test]
fn prefer_system_with_no_preferred_member_removes_all() {
    let g = group_of(vec![
        record("D:\\data\\a", 10, 1, "h"),
        record("D:\\data\\b", 10, 2, "h"),
    ]);
    let (keep, remove) = partition_group(&g, &KeepStrategy::KeepInSystem);
    assert!(keep.is_empty());
    assert_eq!(remove.len(), 2);
}

#[test]
fn prefer_system_keeps_system_copies() {
    let g = group_of(vec![
        record("C:\\Windows\\Fonts\\a", 10, 1, "h"),
        record("D:\\data\\a", 10, 2, "h"),
    ]);
    let (keep, remove) = partition_group(&g, &KeepStrategy::KeepInSystem);
    assert_eq!(keep.len(), 1);
    assert_eq!(keep[0].path, "C:\\Windows\\Fonts\\a");
    assert_eq!(remove.len(), 1);
    assert_eq!(remove[0].path, "D:\\data\\a");
}

#[test]
fn prefer_program_files_keeps_installed_copy() {
    let g = group_of(vec![
        record("C:\\Program Files\\App\\a.dat", 10, 1, "h"),
        record("C:\\Users\\me\\a.dat", 10, 2, "h"),
    ]);
    let (keep, remove) = partition_group(&g, &KeepStrategy::KeepInProgramFiles);
    assert_eq!(keep.len(), 1);
    assert_eq!(keep[0].path, "C:\\Program Files\\App\\a.dat");
    assert_eq!(remove.len(), 1);
}

#[test]
fn partition_covers_the_whole_group() {
    let g = group_of(vec![
        record("D:\\a", 10, 3, "h"),
        record("D:\\b", 10, 1, "h"),
        record("D:\\c", 10, 2, "h"),
    ]);
    for strategy in [
        KeepStrategy::KeepNewest,
        KeepStrategy::KeepOldest,
        KeepStrategy::KeepInSystem,
        KeepStrategy::KeepInProgramFiles,
    ] {
        let (keep, remove) = partition_group(&g, &strategy);
        assert_eq!(keep.len() + remove.len(), g.files.len());
        let mut paths: Vec<&str> = keep.iter().chain(remove.iter()).map(|f| f.path.as_str()).collect();
        paths.sort();
        assert_eq!(paths, vec!["D:\\a", "D:\\b", "D:\\c"]);
    }
}

#[test]
fn removals_collect_across_groups() {
    let g1 = group_of(vec![
        record("D:\\a1", 10, 1, "h1"),
        record("D:\\a2", 10, 2, "h1"),
    ]);
    let g2 = group_of(vec![
        record("D:\\b1", 20, 5, "h2"),
        record("D:\\b2", 20, 4, "h2"),
    ]);
    let groups = vec![g1, g2];
    let removals = files_to_remove(&groups, &KeepStrategy::KeepNewest);
    let paths: Vec<&str> = removals.iter().map(|f| f.path.as_str()).collect();
    assert_eq!(paths, vec!["D:\\a1", "D:\\b2"]);
}
