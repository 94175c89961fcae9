//! Retention policy: partition a duplicate group into the members to keep
//! and the members to remove, under one of the four strategies. The two
//! halves always cover the group exactly, with no overlap and no omission.

use vstd::prelude::*;
use vstd::seq_lib::group_to_multiset_ensures;
use vstd::multiset::{group_multiset_axioms, Multiset};
use crate::model::{DuplicateGroup, FileInfo, KeepStrategy, lemma_filter_push};
use crate::classify::{
    is_program_files_path, is_system_directory, spec_is_program_files_path, spec_is_system_dir,
};

verus! {

/// The negation of a predicate.
pub open spec fn pred_not<A>(p: spec_fn(A) -> bool) -> spec_fn(A) -> bool {
    |x: A| !p(x)
}

/// The predicate the prefer-system strategy keeps by.
pub open spec fn system_keep_pred() -> spec_fn(FileInfo) -> bool {
    |f: FileInfo| spec_is_system_dir(f.path@)
}

/// The predicate the prefer-program-install strategy keeps by.
pub open spec fn program_keep_pred() -> spec_fn(FileInfo) -> bool {
    |f: FileInfo| spec_is_program_files_path(f.path@)
}

/// `i` is the first index of a member with maximal modification time.
pub open spec fn is_first_max(s: Seq<FileInfo>, i: int) -> bool {
    &&& 0 <= i < s.len()
    &&& forall|j: int| 0 <= j < s.len() ==> (#[trigger] s[j]).modified <= s[i].modified
    &&& forall|j: int| 0 <= j < i ==> (#[trigger] s[j]).modified < s[i].modified
}

/// `i` is the first index of a member with minimal modification time.
pub open spec fn is_first_min(s: Seq<FileInfo>, i: int) -> bool {
    &&& 0 <= i < s.len()
    &&& forall|j: int| 0 <= j < s.len() ==> (#[trigger] s[j]).modified >= s[i].modified
    &&& forall|j: int| 0 <= j < i ==> (#[trigger] s[j]).modified > s[i].modified
}

/// The first maximum (and first minimum) is unique.
pub proof fn lemma_first_extremes_unique(s: Seq<FileInfo>, i: int, j: int)
    ensures
        is_first_max(s, i) && is_first_max(s, j) ==> i == j,
        is_first_min(s, i) && is_first_min(s, j) ==> i == j,
{
    if is_first_max(s, i) && is_first_max(s, j) && i != j {
        if i < j {
            assert(s[i].modified < s[j].modified);
            assert(s[j].modified <= s[i].modified);
        } else {
            assert(s[j].modified < s[i].modified);
            assert(s[i].modified <= s[j].modified);
        }
    }
    if is_first_min(s, i) && is_first_min(s, j) && i != j {
        if i < j {
            assert(s[i].modified > s[j].modified);
            assert(s[j].modified >= s[i].modified);
        } else {
            assert(s[j].modified > s[i].modified);
            assert(s[i].modified >= s[j].modified);
        }
    }
}

/// The index the newest-wins strategy keeps.
pub open spec fn first_max_idx(s: Seq<FileInfo>) -> int {
    choose|i: int| is_first_max(s, i)
}

/// The index the oldest-wins strategy keeps.
pub open spec fn first_min_idx(s: Seq<FileInfo>) -> int {
    choose|i: int| is_first_min(s, i)
}

/// The members a strategy slates for removal out of a group's member list.
pub open spec fn spec_remove_set(files: Seq<FileInfo>, strategy: KeepStrategy) -> Seq<FileInfo> {
    match strategy {
        KeepStrategy::KeepNewest => if files.len() == 0 {
            files
        } else {
            files.remove(first_max_idx(files))
        },
        KeepStrategy::KeepOldest => if files.len() == 0 {
            files
        } else {
            files.remove(first_min_idx(files))
        },
        KeepStrategy::KeepInSystem => files.filter(pred_not(system_keep_pred())),
        KeepStrategy::KeepInProgramFiles => files.filter(pred_not(program_keep_pred())),
    }
}

/// The members a strategy keeps out of a group's member list.
pub open spec fn spec_keep_set(files: Seq<FileInfo>, strategy: KeepStrategy) -> Seq<FileInfo> {
    match strategy {
        KeepStrategy::KeepNewest => if files.len() == 0 {
            files
        } else {
            seq![files[first_max_idx(files)]]
        },
        KeepStrategy::KeepOldest => if files.len() == 0 {
            files
        } else {
            seq![files[first_min_idx(files)]]
        },
        KeepStrategy::KeepInSystem => files.filter(system_keep_pred()),
        KeepStrategy::KeepInProgramFiles => files.filter(program_keep_pred()),
    }
}

/// Keeping and removing cover a sequence exactly: together they carry the
/// same records, each the same number of times, as the whole.
pub proof fn lemma_filter_split(s: Seq<FileInfo>, p: spec_fn(FileInfo) -> bool)
    ensures
        s.filter(p).to_multiset().add(s.filter(pred_not(p)).to_multiset()) =~= s.to_multiset(),
        s.filter(p).len() + s.filter(pred_not(p)).len() == s.len(),
    decreases s.len(),
{
    broadcast use group_to_multiset_ensures;
    broadcast use group_multiset_axioms;

    reveal(Seq::filter);
    if s.len() == 0 {
        assert(s.to_multiset() =~= Multiset::<FileInfo>::empty());
    } else {
        let d = s.drop_last();
        lemma_filter_split(d, p);
        assert(d.push(s.last()) =~= s);
        lemma_filter_push(d, s.last(), p);
        lemma_filter_push(d, s.last(), pred_not(p));
        if p(s.last()) {
            assert(s.filter(p) == d.filter(p).push(s.last()));
        } else {
            assert(s.filter(pred_not(p)) == d.filter(pred_not(p)).push(s.last()));
        }
    }
}

/// Removing one member splits a sequence's records into that member and the
/// rest.
pub proof fn lemma_remove_split(s: Seq<FileInfo>, i: int)
    requires
        0 <= i < s.len(),
    ensures
        seq![s[i]].to_multiset().add(s.remove(i).to_multiset()) =~= s.to_multiset(),
{
    broadcast use group_to_multiset_ensures;
    broadcast use group_multiset_axioms;

    assert(seq![s[i]] =~= Seq::<FileInfo>::empty().push(s[i]));
    assert(Seq::<FileInfo>::empty().to_multiset() =~= Multiset::<FileInfo>::empty());
    assert(s.remove(i).to_multiset() =~= s.to_multiset().remove(s[i]));
    assert(s.to_multiset().count(s[i]) > 0);
}

/// Partition a duplicate group's members into the kept and the removed,
/// under the given strategy. Newest- and oldest-wins keep exactly one
/// member, the first one attaining the extreme modification time; the
/// location strategies keep every member at a preferred location, which can
/// be none at all. Together the two halves are exactly the group's members.
pub fn partition_group(group: &DuplicateGroup, strategy: &KeepStrategy) -> (r: (
    Vec<FileInfo>,
    Vec<FileInfo>,
))
    requires
        group.files@.len() >= 1,
    ensures
        r.0@ == spec_keep_set(group.files@, *strategy),
        r.1@ == spec_remove_set(group.files@, *strategy),
        r.0@.to_multiset().add(r.1@.to_multiset()) == group.files@.to_multiset(),
        r.0@.len() + r.1@.len() == group.files@.len(),
        (*strategy == KeepStrategy::KeepNewest || *strategy == KeepStrategy::KeepOldest)
            ==> r.0@.len() == 1,
{
    let files = &group.files;
    let ghost s = files@;
    let n = files.len();
    match strategy {
        KeepStrategy::KeepNewest => {
            let bi = find_newest(files);
            proof {
                lemma_first_extremes_unique(s, bi as int, first_max_idx(s));
            }
            let (keep, remove) = split_at_index(files, bi);
            proof {
                lemma_remove_split(s, bi as int);
            }
            (keep, remove)
        },
        KeepStrategy::KeepOldest => {
            let bi = find_oldest(files);
            proof {
                lemma_first_extremes_unique(s, bi as int, first_min_idx(s));
            }
            let (keep, remove) = split_at_index(files, bi);
            proof {
                lemma_remove_split(s, bi as int);
            }
            (keep, remove)
        },
        KeepStrategy::KeepInSystem => {
            let n = files.len();
            let mut keep: Vec<FileInfo> = Vec::new();
            let mut remove: Vec<FileInfo> = Vec::new();
            let mut i: usize = 0;
            while i < n
                invariant
                    0 <= i <= n,
                    n == s.len(),
                    s == files@,
                    keep@ == s.take(i as int).filter(system_keep_pred()),
                    remove@ == s.take(i as int).filter(pred_not(system_keep_pred())),
                decreases n - i,
            {
                proof {
                    lemma_filter_push(s.take(i as int), s[i as int], system_keep_pred());
                    lemma_filter_push(s.take(i as int), s[i as int], pred_not(system_keep_pred()));
                    assert(s.take(i as int).push(s[i as int]) =~= s.take(i + 1 as int));
                }
                if is_system_directory(files[i].path.as_str()) {
                    keep.push(files[i].duplicate());
                } else {
                    remove.push(files[i].duplicate());
                }
                i = i + 1;
            }
            proof {
                assert(s.take(n as int) =~= s);
                lemma_filter_split(s, system_keep_pred());
            }
            (keep, remove)
        },
        KeepStrategy::KeepInProgramFiles => {
            let n = files.len();
            let mut keep: Vec<FileInfo> = Vec::new();
            let mut remove: Vec<FileInfo> = Vec::new();
            let mut i: usize = 0;
            while i < n
                invariant
                    0 <= i <= n,
                    n == s.len(),
                    s == files@,
                    keep@ == s.take(i as int).filter(program_keep_pred()),
                    remove@ == s.take(i as int).filter(pred_not(program_keep_pred())),
                decreases n - i,
            {
                proof {
                    lemma_filter_push(s.take(i as int), s[i as int], program_keep_pred());
                    lemma_filter_push(s.take(i as int), s[i as int], pred_not(program_keep_pred()));
                    assert(s.take(i as int).push(s[i as int]) =~= s.take(i + 1 as int));
                }
                if is_program_files_path(files[i].path.as_str()) {
                    keep.push(files[i].duplicate());
                } else {
                    remove.push(files[i].duplicate());
                }
                i = i + 1;
            }
            proof {
                assert(s.take(n as int) =~= s);
                lemma_filter_split(s, program_keep_pred());
            }
            (keep, remove)
        },
    }
}

/// The first index with maximal modification time.
fn find_newest(files: &Vec<FileInfo>) -> (bi: usize)
    requires
        files@.len() >= 1,
    ensures
        is_first_max(files@, bi as int),
{
    let ghost s = files@;
    let n = files.len();
    let mut bi: usize = 0;
    let mut i: usize = 1;
    while i < n
        invariant
            0 <= bi < i <= n,
            n == s.len(),
            s == files@,
            forall|j: int| 0 <= j < i ==> (#[trigger] s[j]).modified <= s[bi as int].modified,
            forall|j: int| 0 <= j < bi ==> (#[trigger] s[j]).modified < s[bi as int].modified,
        decreases n - i,
    {
        if files[i].modified > files[bi].modified {
            bi = i;
        }
        i = i + 1;
    }
    bi
}

/// The first index with minimal modification time.
fn find_oldest(files: &Vec<FileInfo>) -> (bi: usize)
    requires
        files@.len() >= 1,
    ensures
        is_first_min(files@, bi as int),
{
    let ghost s = files@;
    let n = files.len();
    let mut bi: usize = 0;
    let mut i: usize = 1;
    while i < n
        invariant
            0 <= bi < i <= n,
            n == s.len(),
            s == files@,
            forall|j: int| 0 <= j < i ==> (#[trigger] s[j]).modified >= s[bi as int].modified,
            forall|j: int| 0 <= j < bi ==> (#[trigger] s[j]).modified > s[bi as int].modified,
        decreases n - i,
    {
        if files[i].modified < files[bi].modified {
            bi = i;
        }
        i = i + 1;
    }
    bi
}

/// The member at `bi` alone, and all the others in their original order.
fn split_at_index(files: &Vec<FileInfo>, bi: usize) -> (r: (Vec<FileInfo>, Vec<FileInfo>))
    requires
        0 <= bi < files@.len(),
    ensures
        r.0@ == seq![files@[bi as int]],
        r.1@ == files@.remove(bi as int),
{
    let ghost s = files@;
    let n = files.len();
    let mut keep: Vec<FileInfo> = Vec::new();
    keep.push(files[bi].duplicate());
    assert(keep@ =~= seq![s[bi as int]]);
    let mut remove: Vec<FileInfo> = Vec::new();
    let mut j: usize = 0;
    while j < n
        invariant
            0 <= j <= n,
            n == s.len(),
            s == files@,
            bi < n,
            remove@ == if j <= bi {
                s.take(j as int)
            } else {
                s.take(j as int).remove(bi as int)
            },
        decreases n - j,
    {
        if j != bi {
            remove.push(files[j].duplicate());
        }
        proof {
            if j < bi {
                assert(remove@ =~= s.take(j + 1 as int));
            } else if j == bi {
                assert(remove@ =~= s.take(j + 1 as int).remove(bi as int));
            } else {
                assert(remove@ =~= s.take(j + 1 as int).remove(bi as int));
            }
        }
        j = j + 1;
    }
    assert(s.take(n as int) =~= s);
    (keep, remove)
}

/// The removal lists of all groups under one strategy, in group order.
pub open spec fn spec_removals(gs: Seq<DuplicateGroup>, strategy: KeepStrategy) -> Seq<FileInfo>
    decreases gs.len(),
{
    if gs.len() == 0 {
        Seq::empty()
    } else {
        spec_removals(gs.drop_last(), strategy) + spec_remove_set(gs.last().files@, strategy)
    }
}

/// Every record a strategy would remove, across all groups, in group order.
/// This is also the list of files a requested backup must archive.
pub fn files_to_remove(groups: &Vec<DuplicateGroup>, strategy: &KeepStrategy) -> (r: Vec<FileInfo>)
    requires
        forall|i: int| 0 <= i < groups@.len() ==> (#[trigger] groups@[i]).files@.len() >= 1,
    ensures
        r@ == spec_removals(groups@, *strategy),
{
    let ghost gs = groups@;
    let m = groups.len();
    let mut r: Vec<FileInfo> = Vec::new();
    let mut k: usize = 0;
    assert(r@ =~= spec_removals(gs.take(0), *strategy));
    while k < m
        invariant
            0 <= k <= m,
            m == gs.len(),
            gs == groups@,
            forall|i: int| 0 <= i < gs.len() ==> (#[trigger] gs[i]).files@.len() >= 1,
            r@ == spec_removals(gs.take(k as int), *strategy),
        decreases m - k,
    {
        let (_keep, remove) = partition_group(&groups[k], strategy);
        let rn = remove.len();
        let ghost rstart = r@;
        let mut j: usize = 0;
        while j < rn
            invariant
                0 <= j <= rn,
                rn == remove@.len(),
                r@ == rstart + remove@.take(j as int),
            decreases rn - j,
        {
            r.push(remove[j].duplicate());
            assert(r@ =~= rstart + remove@.take(j + 1 as int));
            j = j + 1;
        }
        proof {
            assert(remove@.take(rn as int) =~= remove@);
            assert(gs.take(k + 1 as int).drop_last() =~= gs.take(k as int));
            assert(r@ =~= spec_removals(gs.take(k + 1 as int), *strategy));
        }
        k = k + 1;
    }
    assert(gs.take(m as int) =~= gs);
    r
}

} // verus!
