//! Plain data model of the engine: file records, duplicate groups, and the
//! results of a scan or cleanup run.

use vstd::prelude::*;

verus! {

/// One observed regular file. The path is the record's identity; the hash is
/// empty until the fingerprint engine fills it in.
#[derive(Clone, Debug)]
pub struct FileInfo {
    pub path: String,
    pub size: u64,
    /// Last-modified time, seconds since the Unix epoch.
    pub modified: i64,
    /// Content hash in lowercase hex; empty until computed.
    pub hash: String,
    /// Lowercased file-name extension, or "unknown".
    pub file_type: String,
    pub is_system_file: bool,
    pub is_critical: bool,
}

impl FileInfo {
    /// A field-for-field copy of the record.
    pub fn duplicate(&self) -> (r: FileInfo)
        ensures
            r == *self,
    {
        FileInfo {
            path: self.path.clone(),
            size: self.size,
            modified: self.modified,
            hash: self.hash.clone(),
            file_type: self.file_type.clone(),
            is_system_file: self.is_system_file,
            is_critical: self.is_critical,
        }
    }
}

/// A maximal set of scanned files sharing both exact size and content hash.
#[derive(Clone, Debug)]
pub struct DuplicateGroup {
    pub hash: String,
    /// The byte size every member has.
    pub size: u64,
    /// Members, in the order the scan produced them.
    pub files: Vec<FileInfo>,
    /// Sum of the members' sizes.
    pub total_size: u64,
    /// Space recoverable by keeping exactly one copy: `total_size - size`.
    pub potential_savings: u64,
}

impl DuplicateGroup {
    /// Internal consistency of a group: at least two members, every member
    /// carries the group's size and hash, and the derived byte counts agree.
    pub open spec fn wf(self) -> bool {
        &&& self.files@.len() >= 2
        &&& forall|i: int|
            0 <= i < self.files@.len() ==> (#[trigger] self.files@[i]).size == self.size
                && self.files@[i].hash@ == self.hash@
        &&& self.total_size == sum_sizes(self.files@)
        &&& self.total_size == self.size * self.files@.len()
        &&& self.potential_savings == self.total_size - self.size
    }
}

/// A group's potential savings are exactly the size of every copy beyond
/// the first: `size * (n - 1)` for `n` members, and therefore positive for
/// any well-formed group.
pub proof fn lemma_group_savings(g: DuplicateGroup)
    requires
        g.wf(),
    ensures
        g.potential_savings == g.size * (g.files@.len() - 1),
        g.potential_savings >= g.size,
{
    assert(g.size * g.files@.len() - g.size == g.size * (g.files@.len() - 1)) by (nonlinear_arith);
    assert(g.size * (g.files@.len() - 1) >= g.size * 1) by (nonlinear_arith)
        requires
            g.files@.len() >= 2,
            g.size >= 0,
    ;
}

/// Two groups carry the same data, member for member.
pub open spec fn group_matches(a: DuplicateGroup, b: DuplicateGroup) -> bool {
    &&& a.hash@ == b.hash@
    &&& a.size == b.size
    &&& a.files@ == b.files@
    &&& a.total_size == b.total_size
    &&& a.potential_savings == b.potential_savings
}

/// Two group lists carry the same data, group for group.
pub open spec fn groups_match(a: Seq<DuplicateGroup>, b: Seq<DuplicateGroup>) -> bool {
    a.len() == b.len() && forall|i: int| 0 <= i < a.len() ==> group_matches(#[trigger] a[i], b[i])
}

/// Aggregate outcome of one scan run.
#[derive(Clone, Debug)]
pub struct ScanResult {
    pub total_files: usize,
    pub total_size: u64,
    pub duplicate_groups: Vec<DuplicateGroup>,
    pub scan_duration_ms: u64,
    pub scanned_directories: Vec<String>,
    /// Non-fatal, per-item error descriptions.
    pub errors: Vec<String>,
}

/// Two scan results carry the same data, field for field.
pub open spec fn scan_result_matches(a: ScanResult, b: ScanResult) -> bool {
    &&& a.total_files == b.total_files
    &&& a.total_size == b.total_size
    &&& groups_match(a.duplicate_groups@, b.duplicate_groups@)
    &&& a.scan_duration_ms == b.scan_duration_ms
    &&& a.scanned_directories@ == b.scanned_directories@
    &&& a.errors@ == b.errors@
}

/// Outcome of one cleanup run.
#[derive(Clone, Debug)]
pub struct CleanupResult {
    pub files_removed: usize,
    pub space_freed: u64,
    /// Non-fatal, per-item error descriptions.
    pub errors: Vec<String>,
    pub backup_created: bool,
    pub backup_path: Option<String>,
}

/// How a duplicate group is partitioned into kept and removed members.
#[derive(Clone, Copy, Debug, PartialEq, Eq, Structural)]
pub enum KeepStrategy {
    /// Keep the most recently modified member.
    KeepNewest,
    /// Keep the least recently modified member.
    KeepOldest,
    /// Keep every member under a system directory.
    KeepInSystem,
    /// Keep every member under a program-install directory.
    KeepInProgramFiles,
}

/// Sum of the sizes of a sequence of file records, as a mathematical integer.
pub open spec fn sum_sizes(s: Seq<FileInfo>) -> int
    decreases s.len(),
{
    if s.len() == 0 {
        0
    } else {
        sum_sizes(s.drop_last()) + s.last().size
    }
}

/// The sum over a filtered sequence never exceeds the sum over the whole.
pub proof fn lemma_sum_sizes_filter_le(s: Seq<FileInfo>, pred: spec_fn(FileInfo) -> bool)
    ensures
        0 <= sum_sizes(s.filter(pred)) <= sum_sizes(s),
    decreases s.len(),
{
    reveal(Seq::filter);
    if s.len() == 0 {
        assert(s.filter(pred) =~= s);
    } else {
        lemma_sum_sizes_filter_le(s.drop_last(), pred);
        if pred(s.last()) {
            lemma_sum_sizes_push(s.drop_last().filter(pred), s.last());
        }
        assert(s.drop_last().push(s.last()) =~= s);
        assert(sum_sizes(s) == sum_sizes(s.drop_last()) + s.last().size);
    }
}

/// Sums distribute over appending one element.
pub proof fn lemma_sum_sizes_push(s: Seq<FileInfo>, f: FileInfo)
    ensures
        sum_sizes(s.push(f)) == sum_sizes(s) + f.size,
{
    assert(s.push(f).drop_last() =~= s);
}

/// A prefix's sizes sum to no more than the whole's.
pub proof fn lemma_sum_sizes_prefix(s: Seq<FileInfo>, i: int)
    requires
        0 <= i <= s.len(),
    ensures
        0 <= sum_sizes(s.take(i)) <= sum_sizes(s),
    decreases s.len(),
{
    if i == s.len() {
        assert(s.take(i) =~= s);
        lemma_sum_sizes_nonneg(s);
    } else {
        assert(s.drop_last().take(i) =~= s.take(i));
        lemma_sum_sizes_prefix(s.drop_last(), i);
    }
}

/// Sums of sizes are never negative.
pub proof fn lemma_sum_sizes_nonneg(s: Seq<FileInfo>)
    ensures
        sum_sizes(s) >= 0,
    decreases s.len(),
{
    if s.len() > 0 {
        lemma_sum_sizes_nonneg(s.drop_last());
    }
}

/// When every record has size `z`, the sum is `z` times the length.
pub proof fn lemma_sum_sizes_const(s: Seq<FileInfo>, z: u64)
    requires
        forall|i: int| 0 <= i < s.len() ==> (#[trigger] s[i]).size == z,
    ensures
        sum_sizes(s) == z * s.len(),
    decreases s.len(),
{
    if s.len() > 0 {
        lemma_sum_sizes_const(s.drop_last(), z);
        assert(z * s.len() == z * (s.len() - 1) + z) by (nonlinear_arith);
    }
}

/// Filtering distributes over appending one element.
pub proof fn lemma_filter_push<A>(s: Seq<A>, f: A, pred: spec_fn(A) -> bool)
    ensures
        s.push(f).filter(pred) == if pred(f) {
            s.filter(pred).push(f)
        } else {
            s.filter(pred)
        },
{
    reveal(Seq::filter);
    assert(s.push(f).drop_last() =~= s);
}

/// Every element of a filtered sequence satisfies the predicate.
pub proof fn lemma_filter_all<A>(s: Seq<A>, pred: spec_fn(A) -> bool)
    ensures
        forall|x: int| 0 <= x < s.filter(pred).len() ==> pred(#[trigger] s.filter(pred)[x]),
{
    assert forall|x: int| 0 <= x < s.filter(pred).len() implies pred(
        #[trigger] s.filter(pred)[x],
    ) by {
        s.lemma_filter_pred(pred, x);
    }
}

/// Every element of a filtered sequence occurs in the original one.
pub proof fn lemma_filter_sub<A>(s: Seq<A>, pred: spec_fn(A) -> bool, i: int)
    requires
        0 <= i < s.filter(pred).len(),
    ensures
        exists|j: int| 0 <= j < s.len() && s[j] == s.filter(pred)[i],
    decreases s.len(),
{
    reveal(Seq::filter);
    if s.len() > 0 {
        if pred(s.last()) && i == s.filter(pred).len() - 1 {
            assert(s[s.len() - 1] == s.filter(pred)[i]);
        } else {
            lemma_filter_sub(s.drop_last(), pred, i);
            let j = choose|j: int|
                0 <= j < s.drop_last().len() && s.drop_last()[j] == s.drop_last().filter(pred)[i];
            assert(s[j] == s.filter(pred)[i]);
        }
    }
}

} // verus!
