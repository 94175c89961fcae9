//! The scan/cleanup manager: walker admission rules, directory exclusion,
//! and the in-memory store of scan results.

use vstd::prelude::*;
use vstd::string::StringExecFns;
use crate::model::{DuplicateGroup, FileInfo, ScanResult, group_matches, groups_match, lemma_sum_sizes_prefix, scan_result_matches, sum_sizes};
use crate::classify::{
    get_file_extension, is_critical_file, is_system_file, file_type_tag, spec_is_critical_file,
    spec_is_system_file,
};
use crate::text::{is_path_prefix, path_starts_with, str_eq};
use crate::grouper::{apply_hashes, build_groups, duplicate_records, groups_correct, hash_candidates, lemma_pipeline_sums, spec_hash_candidates, spec_hash_errors, spec_with_hashes};

verus! {

/// The duplicate-file engine's state: configuration of the walker and the
/// store of past scan results, keyed by scan identifier.
pub struct FileManager {
    pub backup_directory: String,
    /// Subtrees the walker never enters.
    pub excluded_paths: Vec<String>,
    /// Files above this size are skipped by the walker.
    pub max_file_size: u64,
    /// Scan results of this process, in insertion order.
    pub scan_results: Vec<(String, ScanResult)>,
}

/// The most recently stored result under `id`, if any.
pub open spec fn store_lookup(s: Seq<(String, ScanResult)>, id: Seq<char>) -> Option<ScanResult>
    decreases s.len(),
{
    if s.len() == 0 {
        None
    } else if s.last().0@ == id {
        Some(s.last().1)
    } else {
        store_lookup(s.drop_last(), id)
    }
}

impl FileManager {
    /// A manager over the default exclusion list and the default 100 MiB
    /// size ceiling, with an empty result store.
    pub fn new(backup_dir: String) -> (r: FileManager)
        ensures
            r.backup_directory == backup_dir,
            r.max_file_size == 104857600u64,
            r.scan_results@.len() == 0,
            r.excluded_paths@.len() == 5,
            r.excluded_paths@[0]@ == "C:\\Windows\\System32"@,
            r.excluded_paths@[1]@ == "C:\\Windows\\SysWOW64"@,
            r.excluded_paths@[2]@ == "C:\\Program Files\\WindowsApps"@,
            r.excluded_paths@[3]@ == "C:\\$Recycle.Bin"@,
            r.excluded_paths@[4]@ == "C:\\System Volume Information"@,
    {
        let mut excluded: Vec<String> = Vec::new();
        excluded.push(String::from_str("C:\\Windows\\System32"));
        excluded.push(String::from_str("C:\\Windows\\SysWOW64"));
        excluded.push(String::from_str("C:\\Program Files\\WindowsApps"));
        excluded.push(String::from_str("C:\\$Recycle.Bin"));
        excluded.push(String::from_str("C:\\System Volume Information"));
        FileManager {
            backup_directory: backup_dir,
            excluded_paths: excluded,
            max_file_size: 104857600,
            scan_results: Vec::new(),
        }
    }

    /// Whether the walker must skip a directory: it lies under one of the
    /// configured exclusions.
    pub fn should_exclude_dir(&self, dir: &str) -> (r: bool)
        ensures
            r == exists|i: int|
                0 <= i < self.excluded_paths@.len() && is_path_prefix(
                    (#[trigger] self.excluded_paths@[i])@,
                    dir@,
                ),
    {
        let n = self.excluded_paths.len();
        let mut i: usize = 0;
        while i < n
            invariant
                0 <= i <= n,
                n == self.excluded_paths@.len(),
                forall|j: int|
                    0 <= j < i ==> !is_path_prefix((#[trigger] self.excluded_paths@[j])@, dir@),
            decreases n - i,
        {
            if path_starts_with(dir, self.excluded_paths[i].as_str()) {
                return true;
            }
            i = i + 1;
        }
        false
    }

    /// The walker's admission rule for one file: skip it when it is larger
    /// than the ceiling, or classified as a system or critical file; admit
    /// everything else as a record with an empty hash and its file-type tag.
    pub fn admit_file(&self, path: String, size: u64, modified: i64) -> (r: Option<FileInfo>)
        ensures
            r is Some <==> (size <= self.max_file_size && !spec_is_system_file(path@)
                && !spec_is_critical_file(path@)),
            r is Some ==> {
                &&& r->0.path == path
                &&& r->0.size == size
                &&& r->0.modified == modified
                &&& r->0.hash@ == Seq::<char>::empty()
                &&& r->0.file_type@ == file_type_tag(path@)
                &&& r->0.is_system_file == false
                &&& r->0.is_critical == false
            },
    {
        if size > self.max_file_size {
            return None;
        }
        if is_system_file(path.as_str()) || is_critical_file(path.as_str()) {
            return None;
        }
        let file_type = get_file_extension(path.as_str());
        Some(
            FileInfo {
                path,
                size,
                modified,
                hash: String::new(),
                file_type,
                is_system_file: false,
                is_critical: false,
            },
        )
    }

    /// Assemble the result of one scan run and store it under `scan_id`:
    /// totals over everything the walk admitted, the duplicate groups, the
    /// accumulated per-item errors, and the run's timing.
    pub fn finish_scan(
        &mut self,
        scan_id: String,
        roots: Vec<String>,
        all_files: &Vec<FileInfo>,
        groups: Vec<DuplicateGroup>,
        errors: Vec<String>,
        duration_ms: u64,
    ) -> (r: ScanResult)
        requires
            sum_sizes(all_files@) <= u64::MAX,
        ensures
            r.total_files == all_files@.len(),
            r.total_size == sum_sizes(all_files@),
            r.duplicate_groups@ == groups@,
            r.scan_duration_ms == duration_ms,
            r.scanned_directories@ == roots@,
            r.errors@ == errors@,
            final(self).scan_results@.len() == old(self).scan_results@.len() + 1,
            final(self).scan_results@.drop_last() == old(self).scan_results@,
            final(self).scan_results@.last().0 == scan_id,
            scan_result_matches(final(self).scan_results@.last().1, r),
            final(self).backup_directory == old(self).backup_directory,
            final(self).excluded_paths == old(self).excluded_paths,
            final(self).max_file_size == old(self).max_file_size,
    {
        let ghost s = all_files@;
        let n = all_files.len();
        let mut total: u64 = 0;
        let mut i: usize = 0;
        while i < n
            invariant
                0 <= i <= n,
                n == s.len(),
                s == all_files@,
                sum_sizes(s) <= u64::MAX,
                total == sum_sizes(s.take(i as int)),
            decreases n - i,
        {
            proof {
                lemma_sum_sizes_prefix(s, i + 1);
                assert(s.take(i + 1 as int).drop_last() =~= s.take(i as int));
                assert(s.take(i + 1 as int).last() == s[i as int]);
            }
            total = total + all_files[i].size;
            i = i + 1;
        }
        assert(s.take(n as int) =~= s);
        let result = ScanResult {
            total_files: n,
            total_size: total,
            duplicate_groups: groups,
            scan_duration_ms: duration_ms,
            scanned_directories: roots,
            errors,
        };
        let stored = duplicate_scan_result(&result);
        let ghost before = self.scan_results@;
        self.scan_results.push((scan_id, stored));
        assert(self.scan_results@.drop_last() =~= before);
        result
    }

    /// One whole scan run over the walked records and the hash outcomes of
    /// the candidate files: select the candidates, apply the hashes, group
    /// the duplicates, assemble and store the result. The walk and the
    /// hashing themselves are the caller's; one outcome is expected per
    /// candidate, in candidate order.
    pub fn scan_duplicates(
        &mut self,
        scan_id: String,
        roots: Vec<String>,
        all_files: &Vec<FileInfo>,
        hash_outcomes: Vec<Result<String, String>>,
        walk_errors: Vec<String>,
        duration_ms: u64,
    ) -> (r: ScanResult)
        requires
            hash_outcomes@.len() == spec_hash_candidates(all_files@).len(),
            sum_sizes(all_files@) <= u64::MAX,
        ensures
            r.total_files == all_files@.len(),
            r.total_size == sum_sizes(all_files@),
            groups_correct(
                spec_with_hashes(spec_hash_candidates(all_files@), hash_outcomes@),
                r.duplicate_groups@,
            ),
            r.scan_duration_ms == duration_ms,
            r.scanned_directories@ == roots@,
            r.errors@.map_values(|m: String| m@) == walk_errors@.map_values(|m: String| m@)
                + spec_hash_errors(spec_hash_candidates(all_files@), hash_outcomes@),
            final(self).scan_results@.len() == old(self).scan_results@.len() + 1,
            final(self).scan_results@.drop_last() == old(self).scan_results@,
            final(self).scan_results@.last().0 == scan_id,
            scan_result_matches(final(self).scan_results@.last().1, r),
            final(self).backup_directory == old(self).backup_directory,
            final(self).excluded_paths == old(self).excluded_paths,
            final(self).max_file_size == old(self).max_file_size,
    {
        let ghost s = all_files@;
        let ghost hs = hash_outcomes@;
        let candidates = hash_candidates(all_files);
        let (hashed, hash_errors) = apply_hashes(candidates, hash_outcomes);
        proof {
            lemma_pipeline_sums(s, hs);
        }
        let groups = build_groups(&hashed);
        let errors = append_strings(walk_errors, hash_errors);
        proof {
            assert(errors@.map_values(|m: String| m@) =~= walk_errors@.map_values(|m: String| m@)
                + spec_hash_errors(spec_hash_candidates(s), hs));
        }
        self.finish_scan(scan_id, roots, all_files, groups, errors, duration_ms)
    }

    /// The identifiers of all stored scan results, in insertion order.
    pub fn list_scan_ids(&self) -> (r: Vec<String>)
        ensures
            r@.len() == self.scan_results@.len(),
            forall|i: int|
                0 <= i < r@.len() ==> (#[trigger] r@[i])@ == self.scan_results@[i].0@,
    {
        let n = self.scan_results.len();
        let mut r: Vec<String> = Vec::new();
        let mut i: usize = 0;
        while i < n
            invariant
                0 <= i <= n,
                n == self.scan_results@.len(),
                r@.len() == i,
                forall|j: int|
                    0 <= j < i ==> (#[trigger] r@[j])@ == self.scan_results@[j].0@,
            decreases n - i,
        {
            r.push(self.scan_results[i].0.clone());
            i = i + 1;
        }
        r
    }

    /// The most recently stored scan result under `id`, if any.
    pub fn get_scan_result(&self, id: &str) -> (r: Option<ScanResult>)
        ensures
            r is Some <==> store_lookup(self.scan_results@, id@) is Some,
            r is Some ==> scan_result_matches(r->0, store_lookup(self.scan_results@, id@)->0),
    {
        let ghost s = self.scan_results@;
        let mut i: usize = self.scan_results.len();
        assert(s.take(i as int) =~= s);
        while i > 0
            invariant
                0 <= i <= s.len(),
                s == self.scan_results@,
                store_lookup(s, id@) == store_lookup(s.take(i as int), id@),
            decreases i,
        {
            proof {
                assert(s.take(i as int).drop_last() =~= s.take(i - 1 as int));
                assert(s.take(i as int).last() == s[i - 1]);
            }
            let entry = &self.scan_results[i - 1];
            if str_eq(entry.0.as_str(), id) {
                return Some(duplicate_scan_result(&entry.1));
            }
            i = i - 1;
        }
        assert(s.take(0) =~= Seq::<(String, ScanResult)>::empty());
        None
    }
}

/// The first list with the second appended behind it.
pub fn append_strings(base: Vec<String>, extra: Vec<String>) -> (r: Vec<String>)
    ensures
        r@ == base@ + extra@,
{
    let n = extra.len();
    let mut r = base;
    let ghost b = r@;
    let mut i: usize = 0;
    assert(r@ =~= b + extra@.take(0));
    while i < n
        invariant
            0 <= i <= n,
            n == extra@.len(),
            r@ == b + extra@.take(i as int),
        decreases n - i,
    {
        r.push(extra[i].clone());
        assert(r@ =~= b + extra@.take(i + 1 as int));
        i = i + 1;
    }
    assert(extra@.take(n as int) =~= extra@);
    r
}

/// A field-for-field copy of a string list.
pub fn duplicate_strings(v: &Vec<String>) -> (r: Vec<String>)
    ensures
        r@ == v@,
{
    let n = v.len();
    let mut r: Vec<String> = Vec::new();
    let mut i: usize = 0;
    while i < n
        invariant
            0 <= i <= n,
            n == v@.len(),
            r@ == v@.take(i as int),
        decreases n - i,
    {
        r.push(v[i].clone());
        assert(r@ =~= v@.take(i + 1 as int));
        i = i + 1;
    }
    assert(v@.take(n as int) =~= v@);
    r
}

/// A field-for-field copy of a duplicate group.
pub fn duplicate_group(g: &DuplicateGroup) -> (r: DuplicateGroup)
    ensures
        group_matches(r, *g),
{
    DuplicateGroup {
        hash: g.hash.clone(),
        size: g.size,
        files: duplicate_records(&g.files),
        total_size: g.total_size,
        potential_savings: g.potential_savings,
    }
}

/// A field-for-field copy of a group list.
pub fn duplicate_groups(v: &Vec<DuplicateGroup>) -> (r: Vec<DuplicateGroup>)
    ensures
        groups_match(r@, v@),
{
    let n = v.len();
    let mut r: Vec<DuplicateGroup> = Vec::new();
    let mut i: usize = 0;
    while i < n
        invariant
            0 <= i <= n,
            n == v@.len(),
            r@.len() == i,
            forall|j: int| 0 <= j < i ==> group_matches(#[trigger] r@[j], v@[j]),
        decreases n - i,
    {
        r.push(duplicate_group(&v[i]));
        i = i + 1;
    }
    r
}

/// A field-for-field copy of a scan result.
pub fn duplicate_scan_result(r: &ScanResult) -> (c: ScanResult)
    ensures
        scan_result_matches(c, *r),
{
    ScanResult {
        total_files: r.total_files,
        total_size: r.total_size,
        duplicate_groups: duplicate_groups(&r.duplicate_groups),
        scan_duration_ms: r.scan_duration_ms,
        scanned_directories: duplicate_strings(&r.scanned_directories),
        errors: duplicate_strings(&r.errors),
    }
}

} // verus!
