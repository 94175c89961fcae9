use dedup_cleaner::grouper::{apply_hashes, build_groups, hash_candidates};
use dedup_cleaner::model::FileInfo;

fn record(path: &str, size: u64, modified: i64, hash: &str) -> FileInfo {
    FileInfo {
        path: path.to_string(),
        size,
        modified,
        hash: hash.to_string(),
        file_type: "txt".to_string(),
        is_system_file: false,
        is_critical: false,
    }
}

#[test]
fn scenario_two_of_three_files_duplicate() {
    // three files of size 1000; two share a hash, one does not
    let files = vec![
        record("D:\\a.txt", 1000, 1, ""),
        record("D:\\b.txt", 1000, 2, ""),
        record("D:\\c.txt", 1000, 3, ""),
    ];
    let candidates = hash_candidates(&files);
    assert_eq!(candidates.len(), 3);
    let hashes = vec![
        Ok("h1".to_string()),
        Ok("h1".to_string()),
        Ok("h2".to_string()),
    ];
    let (hashed, errors) = apply_hashes(candidates, hashes);
    assert!(errors.is_empty());
    let groups = build_groups(&hashed);
    assert_eq!(groups.len(), 1);
    let g = &groups[0];
    assert_eq!(g.hash, "h1");
    assert_eq!(g.size, 1000);
    assert_eq!(g.files.len(), 2);
    assert_eq!(g.total_size, 2000);
    assert_eq!(g.potential_savings, 1000);
    assert!(g.files.iter().all(|f| f.path != "D:\\c.txt"));
}

#[test]
fn unique_size_is_never_hashed() {
    let files = vec![
        record("D:\\a.txt", 1000, 1, ""),
        record("D:\\b.txt", 1000, 2, ""),
        record("D:\\lonely.txt", 500, 3, ""),
    ];
    let candidates = hash_candidates(&files);
    assert_eq!(candidates.len(), 2);
    assert!(candidates.iter().all(|f| f.path != "D:\\lonely.txt"));
}

#[test]
fn empty_files_are_skipped() {
    let files = vec![
        record("D:\\a.txt", 0, 1, ""),
        record("D:\\b.txt", 0, 2, ""),
    ];
    let candidates = hash_candidates(&files);
    assert!(candidates.is_empty());
}

#[test]
fn hash_failure_becomes_per_file_error() {
    let files = vec![
        record("C:\\x", 10, 1, ""),
        record("C:\\y", 10, 2, ""),
    ];
    let candidates = hash_candidates(&files);
    let hashes = vec![Err("boom".to_string()), Ok("h".to_string())];
    let (hashed, errors) = apply_hashes(candidates, hashes);
    assert_eq!(hashed.len(), 1);
    assert_eq!(errors.len(), 1);
    assert_eq!(errors[0], "Failed to hash C:\\x: boom");
}

#[test]
fn same_hash_different_size_stays_apart() {
    let hashed = vec![
        record("D:\\a", 100, 1, "h"),
        record("D:\\b", 100, 2, "h"),
        record("D:\\c", 200, 3, "h"),
        record("D:\\d", 200, 4, "h"),
    ];
    let groups = build_groups(&hashed);
    assert_eq!(groups.len(), 2);
    assert!(groups.iter().all(|g| g.files.len() == 2));
    assert!(groups.iter().any(|g| g.size == 100));
    assert!(groups.iter().any(|g| g.size == 200));
}

#[test]
fn grouping_twice_gives_same_membership() {
    let hashed = vec![
        record("D:\\a", 100, 1, "h1"),
        record("D:\\b", 100, 2, "h1"),
        record("D:\\c", 300, 3, "h2"),
        record("D:\\d", 300, 4, "h2"),
        record("D:\\e", 300, 5, "h3"),
    ];
    let g1 = build_groups(&hashed);
    let g2 = build_groups(&hashed);
    assert_eq!(g1.len(), g2.len());
    for a in &g1 {
        let paths_a: Vec<&str> = a.files.iter().map(|f| f.path.as_str()).collect();
        assert!(g2.iter().any(|b| {
            let paths_b: Vec<&str> = b.files.iter().map(|f| f.path.as_str()).collect();
            paths_a == paths_b
        }));
    }
}

#[test]
fn every_group_is_well_formed() {
    let hashed = vec![
        record("D:\\a", 100, 1, "h1"),
        record("D:\\b", 100, 2, "h1"),
        record("D:\\c", 100, 3, "h1"),
        record("D:\\d", 300, 4, "h2"),
    ];
    let groups = build_groups(&hashed);
    assert_eq!(groups.len(), 1);
    for g in &groups {
        assert!(g.files.len() >= 2);
        assert!(g.files.iter().all(|f| f.size == g.size && f.hash == g.hash));
        let total: u64 = g.files.iter().map(|f| f.size).sum();
        assert_eq!(g.total_size, total);
        assert_eq!(g.potential_savings, g.total_size - g.size);
        assert!(g.potential_savings >= g.size * (g.files.len() as u64 - 1));
    }
}
