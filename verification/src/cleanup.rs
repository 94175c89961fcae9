//! Guarded removal: the critical-file guard, the accounting of deletion
//! outcomes into a `CleanupResult`, and the abort path taken when a
//! requested backup cannot be produced.

use vstd::prelude::*;
use vstd::string::StringExecFns;
use crate::model::{CleanupResult, DuplicateGroup, FileInfo, KeepStrategy, lemma_filter_all,
    lemma_filter_push, sum_sizes};
use crate::classify::{is_critical_file, spec_is_critical_file};
use crate::messages::{
    backup_failure_message, backup_failure_text, critical_file_message, critical_file_text,
    delete_failure_message, delete_failure_text,
};
use crate::retention::spec_removals;

verus! {

/// A record may be deleted only when it is not flagged critical and its
/// path, re-checked at deletion time, does not classify as critical.
pub open spec fn removable_pred() -> spec_fn(FileInfo) -> bool {
    |f: FileInfo| !f.is_critical && !spec_is_critical_file(f.path@)
}

/// The records of `s` that pass the critical-file guard.
pub open spec fn spec_approved(s: Seq<FileInfo>) -> Seq<FileInfo> {
    s.filter(removable_pred())
}

/// The guard-rejection texts for the records of `s` the guard refuses, in
/// order.
pub open spec fn spec_guard_errors(s: Seq<FileInfo>) -> Seq<Seq<char>>
    decreases s.len(),
{
    if s.len() == 0 {
        Seq::empty()
    } else {
        let rest = spec_guard_errors(s.drop_last());
        if removable_pred()(s.last()) {
            rest
        } else {
            rest.push(critical_file_text(s.last().path@))
        }
    }
}

/// A record flagged critical is never among the approved deletions, for any
/// set of groups and any strategy, with or without a backup.
pub proof fn lemma_critical_never_removed(
    groups: Seq<DuplicateGroup>,
    strategy: KeepStrategy,
    f: FileInfo,
)
    requires
        f.is_critical || spec_is_critical_file(f.path@),
    ensures
        !spec_approved(spec_removals(groups, strategy)).contains(f),
{
    let s = spec_removals(groups, strategy);
    lemma_filter_all(s, removable_pred());
    if spec_approved(s).contains(f) {
        let x = choose|x: int| 0 <= x < spec_approved(s).len() && spec_approved(s)[x] == f;
        assert(removable_pred()(spec_approved(s)[x]));
    }
}

/// Apply the critical-file guard to the records slated for removal: the
/// approved records keep their order; each refused record yields a guard
/// rejection error instead. The flag carried by the record and the fresh
/// classification of its path are both honoured.
pub fn approve_deletions(files: &Vec<FileInfo>) -> (r: (Vec<FileInfo>, Vec<String>))
    ensures
        r.0@ == spec_approved(files@),
        r.1@.map_values(|m: String| m@) == spec_guard_errors(files@),
{
    let ghost s = files@;
    let n = files.len();
    let mut approved: Vec<FileInfo> = Vec::new();
    let mut rejected: Vec<String> = Vec::new();
    let mut i: usize = 0;
    assert(rejected@.map_values(|m: String| m@) =~= Seq::<Seq<char>>::empty());
    while i < n
        invariant
            0 <= i <= n,
            n == s.len(),
            s == files@,
            approved@ == spec_approved(s.take(i as int)),
            rejected@.map_values(|m: String| m@) == spec_guard_errors(s.take(i as int)),
        decreases n - i,
    {
        proof {
            lemma_filter_push(s.take(i as int), s[i as int], removable_pred());
            assert(s.take(i as int).push(s[i as int]) =~= s.take(i + 1 as int));
            assert(s.take(i + 1 as int).drop_last() =~= s.take(i as int));
        }
        let f = &files[i];
        if !f.is_critical && !is_critical_file(f.path.as_str()) {
            approved.push(f.duplicate());
        } else {
            let m = critical_file_message(f.path.as_str());
            rejected.push(m);
            proof {
                assert(rejected@.drop_last().map_values(|m: String| m@).push(rejected@.last()@)
                    =~= rejected@.map_values(|m: String| m@));
                assert(rejected@.drop_last() =~= rejected@.subrange(0, rejected@.len() - 1));
            }
        }
        i = i + 1;
    }
    assert(s.take(n as int) =~= s);
    (approved, rejected)
}

/// How many deletion outcomes succeeded.
pub open spec fn spec_removed_count(o: Seq<Result<(), String>>) -> int
    decreases o.len(),
{
    if o.len() == 0 {
        0
    } else {
        spec_removed_count(o.drop_last()) + if o.last() is Ok {
            1int
        } else {
            0int
        }
    }
}

/// The bytes freed: the sizes of the records whose deletion succeeded.
pub open spec fn spec_freed(a: Seq<FileInfo>, o: Seq<Result<(), String>>) -> int
    decreases a.len(),
{
    if a.len() == 0 || o.len() != a.len() {
        0
    } else {
        spec_freed(a.drop_last(), o.drop_last()) + if o.last() is Ok {
            a.last().size as int
        } else {
            0int
        }
    }
}

/// The per-file error texts of the deletions that failed.
pub open spec fn spec_delete_errors(a: Seq<FileInfo>, o: Seq<Result<(), String>>) -> Seq<Seq<char>>
    decreases a.len(),
{
    if a.len() == 0 || o.len() != a.len() {
        Seq::empty()
    } else {
        let rest = spec_delete_errors(a.drop_last(), o.drop_last());
        match o.last() {
            Ok(_) => rest,
            Err(e) => rest.push(delete_failure_text(a.last().path@, e@)),
        }
    }
}

/// No more outcomes succeed than there are outcomes.
proof fn lemma_removed_count_le(o: Seq<Result<(), String>>)
    ensures
        0 <= spec_removed_count(o) <= o.len(),
    decreases o.len(),
{
    if o.len() > 0 {
        lemma_removed_count_le(o.drop_last());
    }
}

/// No more bytes are freed than the approved records hold together.
proof fn lemma_freed_le(a: Seq<FileInfo>, o: Seq<Result<(), String>>)
    ensures
        0 <= spec_freed(a, o) <= sum_sizes(a),
    decreases a.len(),
{
    if a.len() > 0 {
        lemma_freed_le(a.drop_last(), o.drop_last());
        if o.len() == a.len() {
            assert(sum_sizes(a) == sum_sizes(a.drop_last()) + a.last().size);
        }
    }
}

/// Account the per-file deletion outcomes of one cleanup run: every success
/// adds one removed file and its size in freed bytes; every failure adds a
/// per-file error after the errors accumulated earlier in the run.
pub fn finish_cleanup(
    approved: &Vec<FileInfo>,
    outcomes: &Vec<Result<(), String>>,
    prior_errors: Vec<String>,
    backup_created: bool,
    backup_path: Option<String>,
) -> (r: CleanupResult)
    requires
        approved@.len() == outcomes@.len(),
        sum_sizes(approved@) <= u64::MAX,
    ensures
        r.files_removed == spec_removed_count(outcomes@),
        r.space_freed == spec_freed(approved@, outcomes@),
        r.errors@.map_values(|m: String| m@) == prior_errors@.map_values(|m: String| m@)
            + spec_delete_errors(approved@, outcomes@),
        r.backup_created == backup_created,
        r.backup_path == backup_path,
{
    let ghost av = approved@;
    let ghost ov = outcomes@;
    let n = approved.len();
    let mut removed: usize = 0;
    let mut freed: u64 = 0;
    let mut errors: Vec<String> = prior_errors;
    let ghost prior = errors@;
    let mut i: usize = 0;
    assert(errors@.map_values(|m: String| m@) =~= prior.map_values(|m: String| m@)
        + spec_delete_errors(av.take(0), ov.take(0)));
    while i < n
        invariant
            0 <= i <= n,
            n == av.len(),
            n == ov.len(),
            av == approved@,
            ov == outcomes@,
            sum_sizes(av) <= u64::MAX,
            removed == spec_removed_count(ov.take(i as int)),
            freed == spec_freed(av.take(i as int), ov.take(i as int)),
            errors@.map_values(|m: String| m@) == prior.map_values(|m: String| m@)
                + spec_delete_errors(av.take(i as int), ov.take(i as int)),
        decreases n - i,
    {
        proof {
            assert(av.take(i + 1 as int).drop_last() =~= av.take(i as int));
            assert(ov.take(i + 1 as int).drop_last() =~= ov.take(i as int));
            lemma_removed_count_le(ov.take(i as int));
            lemma_freed_le(av.take(i as int), ov.take(i as int));
            lemma_freed_le(av.take(i + 1 as int), ov.take(i + 1 as int));
            crate::model::lemma_sum_sizes_prefix(av, i + 1);
        }
        match &outcomes[i] {
            Ok(_) => {
                removed = removed + 1;
                freed = freed + approved[i].size;
                proof {
                    assert(errors@.map_values(|m: String| m@) =~= prior.map_values(|m: String| m@)
                        + spec_delete_errors(av.take(i + 1 as int), ov.take(i + 1 as int)));
                }
            },
            Err(e) => {
                let m = delete_failure_message(approved[i].path.as_str(), e.as_str());
                let ghost e0 = errors@;
                errors.push(m);
                proof {
                    assert(ov.take(i + 1 as int).last() == ov[i as int]);
                    assert(av.take(i + 1 as int).last() == av[i as int]);
                    assert(m@ == delete_failure_text(av[i as int].path@, ov[i as int]->Err_0@));
                    assert(spec_delete_errors(av.take(i + 1 as int), ov.take(i + 1 as int))
                        =~= spec_delete_errors(av.take(i as int), ov.take(i as int)).push(
                        delete_failure_text(av[i as int].path@, ov[i as int]->Err_0@),
                    ));
                    assert(errors@ == e0.push(m));
                    assert(errors@.map_values(|m: String| m@) =~= e0.map_values(|m: String| m@)
                        .push(m@));
                    assert(errors@.map_values(|m: String| m@) =~= prior.map_values(|m: String| m@)
                        + spec_delete_errors(av.take(i + 1 as int), ov.take(i + 1 as int)));
                }
            },
        }
        i = i + 1;
    }
    proof {
        assert(av.take(n as int) =~= av);
        assert(ov.take(n as int) =~= ov);
    }
    CleanupResult {
        files_removed: removed,
        space_freed: freed,
        errors,
        backup_created,
        backup_path,
    }
}

/// The result of a cleanup that stopped because the requested backup could
/// not be produced: nothing was removed, nothing freed, and the failure is
/// on record. No deletion happens on this path.
pub fn cleanup_aborted(detail: &str) -> (r: CleanupResult)
    ensures
        r.files_removed == 0,
        r.space_freed == 0,
        r.backup_created == false,
        r.backup_path is None,
        r.errors@.map_values(|m: String| m@) == seq![backup_failure_text(detail@)],
        r.errors@.len() == 1,
{
    let m = backup_failure_message(detail);
    let mut errors: Vec<String> = Vec::new();
    errors.push(m);
    assert(errors@.map_values(|m: String| m@) =~= seq![backup_failure_text(detail@)]);
    CleanupResult {
        files_removed: 0,
        space_freed: 0,
        errors,
        backup_created: false,
        backup_path: None,
    }
}

/// The archive name a backup run writes: `cleanup_backup_<timestamp>.zip`.
pub fn backup_archive_name(timestamp: &str) -> (r: String)
    ensures
        r@ == "cleanup_backup_"@ + timestamp@ + ".zip"@,
{
    let mut out = String::new();
    out.append("cleanup_backup_");
    out.append(timestamp);
    out.append(".zip");
    out
}

/// The age threshold of temp-file cleanup: only files last modified more
/// than seven days before the given time are touched.
pub fn temp_file_cutoff(now_secs: i64) -> (r: i64)
    requires
        now_secs >= i64::MIN + 604800,
    ensures
        r == now_secs - 604800,
{
    now_secs - 604800
}

/// The identifier a scan run is stored under: `scan_<timestamp>`.
pub fn scan_identifier(timestamp: &str) -> (r: String)
    ensures
        r@ == "scan_"@ + timestamp@,
{
    let mut out = String::new();
    out.append("scan_");
    out.append(timestamp);
    out
}

/// The records last modified strictly before the cutoff; temp-file cleanup
/// keeps only files older than its age threshold.
pub open spec fn older_pred(cutoff: i64) -> spec_fn(FileInfo) -> bool {
    |f: FileInfo| f.modified < cutoff
}

/// The records of `files` last modified strictly before `cutoff`, in order.
pub fn filter_older_than(files: &Vec<FileInfo>, cutoff: i64) -> (r: Vec<FileInfo>)
    ensures
        r@ == files@.filter(older_pred(cutoff)),
{
    let ghost s = files@;
    let n = files.len();
    let mut r: Vec<FileInfo> = Vec::new();
    let mut i: usize = 0;
    while i < n
        invariant
            0 <= i <= n,
            n == s.len(),
            s == files@,
            r@ == s.take(i as int).filter(older_pred(cutoff)),
        decreases n - i,
    {
        proof {
            lemma_filter_push(s.take(i as int), s[i as int], older_pred(cutoff));
            assert(s.take(i as int).push(s[i as int]) =~= s.take(i + 1 as int));
        }
        if files[i].modified < cutoff {
            r.push(files[i].duplicate());
        }
        i = i + 1;
    }
    assert(s.take(n as int) =~= s);
    r
}

} // verus!
