//! Two-phase duplicate grouping: candidate selection by exact size, then
//! grouping by content hash within equal sizes. Hashing is only ever asked
//! for files that share their exact size with at least one other file.

use vstd::prelude::*;
use crate::model::{
    DuplicateGroup, FileInfo, lemma_filter_all, lemma_filter_push, lemma_sum_sizes_const,
    lemma_sum_sizes_filter_le, sum_sizes,
};
use crate::messages::{hash_failure_message, hash_failure_text};

verus! {

/// The records of `s` with exact byte size `z`.
pub open spec fn same_size(s: Seq<FileInfo>, z: u64) -> Seq<FileInfo> {
    s.filter(|f: FileInfo| f.size == z)
}

/// A record is hashed only when it is non-empty and at least one other
/// record of the set has the same exact size.
pub open spec fn is_hash_candidate(s: Seq<FileInfo>, f: FileInfo) -> bool {
    f.size > 0 && same_size(s, f.size).len() >= 2
}

/// The predicate "is a hashing candidate within the set `s`".
pub open spec fn candidate_pred(s: Seq<FileInfo>) -> spec_fn(FileInfo) -> bool {
    |f: FileInfo| is_hash_candidate(s, f)
}

/// The records of `s` that the fingerprint engine is asked to hash, in the
/// order the scan produced them.
pub open spec fn spec_hash_candidates(s: Seq<FileInfo>) -> Seq<FileInfo> {
    s.filter(candidate_pred(s))
}

/// The predicate "carries exact size `size` and content hash `hash`".
pub open spec fn partner_pred(size: u64, hash: Seq<char>) -> spec_fn(FileInfo) -> bool {
    |f: FileInfo| f.size == size && f.hash@ == hash
}

/// The records of `s` sharing exact size `size` and content hash `hash`, in
/// the order the scan produced them.
pub open spec fn partners(s: Seq<FileInfo>, size: u64, hash: Seq<char>) -> Seq<FileInfo> {
    s.filter(partner_pred(size, hash))
}

/// Partner lists are made of records carrying the shared size and hash, and
/// their sizes sum to no more than the whole set's.
pub proof fn lemma_partners_facts(s: Seq<FileInfo>, size: u64, hash: Seq<char>)
    ensures
        0 <= sum_sizes(partners(s, size, hash)) <= sum_sizes(s),
        forall|x: int|
            0 <= x < partners(s, size, hash).len() ==> (#[trigger] partners(s, size, hash)[x]).size
                == size && partners(s, size, hash)[x].hash@ == hash,
{
    lemma_sum_sizes_filter_le(s, partner_pred(size, hash));
    lemma_filter_all(s, partner_pred(size, hash));
}

/// What the duplicate grouper owes for input `s`: every group is internally
/// consistent and holds exactly the records of `s` with its size and hash;
/// every size/hash pair shared by at least two records has its group; and no
/// two groups share a size/hash pair.
pub open spec fn groups_correct(s: Seq<FileInfo>, gs: Seq<DuplicateGroup>) -> bool {
    &&& forall|i: int|
        0 <= i < gs.len() ==> (#[trigger] gs[i]).wf() && gs[i].files@ == partners(
            s,
            gs[i].size,
            gs[i].hash@,
        )
    &&& forall|size: u64, hash: Seq<char>|
        #[trigger] partners(s, size, hash).len() >= 2 ==> exists|i: int|
            0 <= i < gs.len() && (#[trigger] gs[i]).size == size && gs[i].hash@ == hash
    &&& forall|i: int, j: int|
        0 <= i < j < gs.len() ==> !(gs[i].size == gs[j].size && gs[i].hash@ == gs[j].hash@)
}

/// Applying hash outcomes never grows the byte total, and selecting the
/// hashing candidates never grows it either.
pub proof fn lemma_pipeline_sums(s: Seq<FileInfo>, h: Seq<Result<String, String>>)
    ensures
        0 <= sum_sizes(spec_hash_candidates(s)) <= sum_sizes(s),
        0 <= sum_sizes(spec_with_hashes(spec_hash_candidates(s), h)) <= sum_sizes(
            spec_hash_candidates(s),
        ),
{
    lemma_sum_sizes_filter_le(s, candidate_pred(s));
    lemma_with_hashes_sum_le(spec_hash_candidates(s), h);
}

/// Applying hash outcomes never grows the byte total.
proof fn lemma_with_hashes_sum_le(c: Seq<FileInfo>, h: Seq<Result<String, String>>)
    ensures
        0 <= sum_sizes(spec_with_hashes(c, h)) <= sum_sizes(c),
    decreases c.len(),
{
    crate::model::lemma_sum_sizes_nonneg(spec_with_hashes(c, h));
    if c.len() > 0 && h.len() == c.len() {
        lemma_with_hashes_sum_le(c.drop_last(), h.drop_last());
        if h.last() is Ok {
            crate::model::lemma_sum_sizes_push(
                spec_with_hashes(c.drop_last(), h.drop_last()),
                FileInfo { hash: h.last()->Ok_0, ..c.last() },
            );
        }
    } else {
        crate::model::lemma_sum_sizes_nonneg(c);
    }
}

/// Every record produced by applying hash outcomes keeps the size of one of
/// the candidates it came from.
proof fn lemma_with_hashes_sizes(c: Seq<FileInfo>, h: Seq<Result<String, String>>, x: int)
    requires
        0 <= x < spec_with_hashes(c, h).len(),
    ensures
        exists|j: int| 0 <= j < c.len() && (#[trigger] c[j]).size == spec_with_hashes(c, h)[x].size,
    decreases c.len(),
{
    let w = spec_with_hashes(c, h);
    if c.len() > 0 && h.len() == c.len() {
        if h.last() is Ok && x == w.len() - 1 {
            assert(c[c.len() - 1].size == w[x].size);
        } else {
            lemma_with_hashes_sizes(c.drop_last(), h.drop_last(), x);
            let j = choose|j: int|
                0 <= j < c.drop_last().len() && (#[trigger] c.drop_last()[j]).size
                    == spec_with_hashes(c.drop_last(), h.drop_last())[x].size;
            assert(c[j].size == w[x].size);
        }
    }
}

/// A file with no other file of the same exact size is never handed to the
/// fingerprint engine, and no record of its size appears in any group that
/// correct grouping of the hashed candidates produces.
pub proof fn lemma_unique_size_never_hashed(
    files: Seq<FileInfo>,
    hashes: Seq<Result<String, String>>,
    groups: Seq<DuplicateGroup>,
    f: FileInfo,
)
    requires
        same_size(files, f.size).len() <= 1,
        groups_correct(spec_with_hashes(spec_hash_candidates(files), hashes), groups),
    ensures
        !spec_hash_candidates(files).contains(f),
        forall|g: int, m: int|
            0 <= g < groups.len() && 0 <= m < (#[trigger] groups[g]).files@.len() ==> (
            #[trigger] groups[g].files@[m]).size != f.size,
{
    let cands = spec_hash_candidates(files);
    let hashed = spec_with_hashes(cands, hashes);
    lemma_filter_all(files, candidate_pred(files));
    if cands.contains(f) {
        let x = choose|x: int| 0 <= x < cands.len() && cands[x] == f;
        assert(is_hash_candidate(files, cands[x]));
    }
    assert forall|g: int, m: int|
        0 <= g < groups.len() && 0 <= m < (#[trigger] groups[g]).files@.len() implies (
    #[trigger] groups[g].files@[m]).size != f.size by {
        let member = groups[g].files@[m];
        assert(groups[g].files@ == partners(hashed, groups[g].size, groups[g].hash@));
        crate::model::lemma_filter_sub(
            hashed,
            partner_pred(groups[g].size, groups[g].hash@),
            m,
        );
        let x = choose|x: int| 0 <= x < hashed.len() && hashed[x] == member;
        lemma_with_hashes_sizes(cands, hashes, x);
        let j = choose|j: int| 0 <= j < cands.len() && (#[trigger] cands[j]).size == hashed[x].size;
        assert(is_hash_candidate(files, cands[j]));
        if member.size == f.size {
            assert(same_size(files, f.size).len() >= 2);
        }
    }
}

/// Grouping is a function of the scanned records alone: two group lists that
/// are both correct for the same records have the same groups, member list
/// for member list.
pub proof fn lemma_grouping_deterministic(
    files: Seq<FileInfo>,
    g1: Seq<DuplicateGroup>,
    g2: Seq<DuplicateGroup>,
)
    requires
        groups_correct(files, g1),
        groups_correct(files, g2),
    ensures
        forall|i: int|
            0 <= i < g1.len() ==> has_group_with_members(g2, (#[trigger] g1[i]).files@),
        forall|j: int|
            0 <= j < g2.len() ==> has_group_with_members(g1, (#[trigger] g2[j]).files@),
{
    assert forall|i: int| 0 <= i < g1.len() implies has_group_with_members(
        g2,
        (#[trigger] g1[i]).files@,
    ) by {
        assert(g1[i].files@ == partners(files, g1[i].size, g1[i].hash@));
        assert(partners(files, g1[i].size, g1[i].hash@).len() >= 2);
        let j = choose|j: int|
            0 <= j < g2.len() && (#[trigger] g2[j]).size == g1[i].size && g2[j].hash@
                == g1[i].hash@;
        assert(0 <= j < g2.len() && (#[trigger] g2[j]).files@ == g1[i].files@);
    }
    assert forall|j: int| 0 <= j < g2.len() implies has_group_with_members(
        g1,
        (#[trigger] g2[j]).files@,
    ) by {
        assert(g2[j].files@ == partners(files, g2[j].size, g2[j].hash@));
        assert(partners(files, g2[j].size, g2[j].hash@).len() >= 2);
        let i = choose|i: int|
            0 <= i < g1.len() && (#[trigger] g1[i]).size == g2[j].size && g1[i].hash@
                == g2[j].hash@;
        assert(0 <= i < g1.len() && (#[trigger] g1[i]).files@ == g2[j].files@);
    }
}

/// Some group in `gs` has exactly the member list `members`.
pub open spec fn has_group_with_members(gs: Seq<DuplicateGroup>, members: Seq<FileInfo>) -> bool {
    exists|j: int| 0 <= j < gs.len() && (#[trigger] gs[j]).files@ == members
}

/// How many records of `files` have exact size `z`.
fn count_same_size(files: &Vec<FileInfo>, z: u64) -> (c: usize)
    ensures
        c == same_size(files@, z).len(),
{
    let n = files.len();
    let mut c: usize = 0;
    let mut j: usize = 0;
    while j < n
        invariant
            0 <= j <= n,
            n == files@.len(),
            c <= j,
            c == same_size(files@.take(j as int), z).len(),
        decreases n - j,
    {
        proof {
            lemma_filter_push(files@.take(j as int), files@[j as int], |f: FileInfo| f.size == z);
            assert(files@.take(j as int).push(files@[j as int]) =~= files@.take(j + 1 as int));
        }
        if files[j].size == z {
            c = c + 1;
        }
        j = j + 1;
    }
    assert(files@.take(n as int) =~= files@);
    c
}

/// The records that the scan must hash: non-empty files whose exact size is
/// shared with at least one other record. Nothing else is ever hashed.
pub fn hash_candidates(files: &Vec<FileInfo>) -> (r: Vec<FileInfo>)
    ensures
        r@ == spec_hash_candidates(files@),
{
    let ghost s = files@;
    let n = files.len();
    let mut r: Vec<FileInfo> = Vec::new();
    let mut i: usize = 0;
    while i < n
        invariant
            0 <= i <= n,
            n == s.len(),
            s == files@,
            r@ == s.take(i as int).filter(candidate_pred(s)),
        decreases n - i,
    {
        proof {
            lemma_filter_push(s.take(i as int), s[i as int], candidate_pred(s));
            assert(s.take(i as int).push(s[i as int]) =~= s.take(i + 1 as int));
        }
        let f = &files[i];
        if f.size > 0 {
            let c = count_same_size(files, f.size);
            if c >= 2 {
                r.push(f.duplicate());
            }
        }
        i = i + 1;
    }
    assert(s.take(n as int) =~= s);
    r
}

/// The candidate records with the hash outcomes applied: a record whose
/// hash computation succeeded, carrying that hash.
pub open spec fn spec_with_hashes(c: Seq<FileInfo>, h: Seq<Result<String, String>>) -> Seq<
    FileInfo,
>
    decreases c.len(),
{
    if c.len() == 0 || h.len() != c.len() {
        Seq::empty()
    } else {
        let rest = spec_with_hashes(c.drop_last(), h.drop_last());
        match h.last() {
            Ok(hx) => rest.push(FileInfo { hash: hx, ..c.last() }),
            Err(_) => rest,
        }
    }
}

/// The per-file error texts for the hash outcomes that failed.
pub open spec fn spec_hash_errors(c: Seq<FileInfo>, h: Seq<Result<String, String>>) -> Seq<
    Seq<char>,
>
    decreases c.len(),
{
    if c.len() == 0 || h.len() != c.len() {
        Seq::empty()
    } else {
        let rest = spec_hash_errors(c.drop_last(), h.drop_last());
        match h.last() {
            Ok(_) => rest,
            Err(e) => rest.push(hash_failure_text(c.last().path@, e@)),
        }
    }
}

/// Pair each hashing candidate with its hash outcome: successes become
/// hashed records, failures become per-file errors, in input order.
pub fn apply_hashes(candidates: Vec<FileInfo>, hashes: Vec<Result<String, String>>) -> (r: (
    Vec<FileInfo>,
    Vec<String>,
))
    requires
        candidates@.len() == hashes@.len(),
    ensures
        r.0@ == spec_with_hashes(candidates@, hashes@),
        r.1@.map_values(|m: String| m@) == spec_hash_errors(candidates@, hashes@),
{
    let ghost cs = candidates@;
    let ghost hs = hashes@;
    let n = candidates.len();
    let mut out: Vec<FileInfo> = Vec::new();
    let mut errs: Vec<String> = Vec::new();
    let mut i: usize = 0;
    assert(errs@.map_values(|m: String| m@) =~= Seq::<Seq<char>>::empty());
    while i < n
        invariant
            0 <= i <= n,
            n == cs.len(),
            n == hs.len(),
            cs == candidates@,
            hs == hashes@,
            out@ == spec_with_hashes(cs.take(i as int), hs.take(i as int)),
            errs@.map_values(|m: String| m@) == spec_hash_errors(
                cs.take(i as int),
                hs.take(i as int),
            ),
        decreases n - i,
    {
        proof {
            assert(cs.take(i + 1 as int).drop_last() =~= cs.take(i as int));
            assert(hs.take(i + 1 as int).drop_last() =~= hs.take(i as int));
        }
        let f = &candidates[i];
        match &hashes[i] {
            Ok(hx) => {
                let rec = FileInfo {
                    path: f.path.clone(),
                    size: f.size,
                    modified: f.modified,
                    hash: hx.clone(),
                    file_type: f.file_type.clone(),
                    is_system_file: f.is_system_file,
                    is_critical: f.is_critical,
                };
                assert(rec == (FileInfo { hash: *hx, ..cs[i as int] }));
                out.push(rec);
            },
            Err(e) => {
                let m = hash_failure_message(f.path.as_str(), e.as_str());
                errs.push(m);
                proof {
                    assert(errs@.drop_last().map_values(|m: String| m@).push(errs@.last()@)
                        =~= errs@.map_values(|m: String| m@));
                    assert(errs@.drop_last() =~= errs@.subrange(0, errs@.len() - 1));
                }
            },
        }
        i = i + 1;
    }
    assert(cs.take(n as int) =~= cs);
    assert(hs.take(n as int) =~= hs);
    (out, errs)
}

/// One in-progress size/hash bucket.
struct Bucket {
    size: u64,
    hash: String,
    files: Vec<FileInfo>,
}

/// A field-for-field copy of a record list.
pub fn duplicate_records(v: &Vec<FileInfo>) -> (r: Vec<FileInfo>)
    ensures
        r@ == v@,
{
    let n = v.len();
    let mut r: Vec<FileInfo> = Vec::new();
    let mut i: usize = 0;
    while i < n
        invariant
            0 <= i <= n,
            n == v@.len(),
            r@ == v@.take(i as int),
        decreases n - i,
    {
        r.push(v[i].duplicate());
        assert(r@ =~= v@.take(i + 1 as int));
        i = i + 1;
    }
    assert(v@.take(n as int) =~= v@);
    r
}

/// Whether two strings hold the same characters.
fn str_eq_string(a: &String, b: &String) -> (r: bool)
    ensures
        r == (a@ == b@),
{
    crate::text::str_eq(a.as_str(), b.as_str())
}

/// Group hashed records into duplicate groups: one group for every size and
/// hash shared by at least two records, carrying exactly those records in
/// scan order; records without a sharer end up in no group.
pub fn build_groups(files: &Vec<FileInfo>) -> (groups: Vec<DuplicateGroup>)
    requires
        sum_sizes(files@) <= u64::MAX,
    ensures
        groups_correct(files@, groups@),
{
    let ghost s = files@;
    let n = files.len();

    // first pass: one bucket for every size/hash pair that occurs
    let mut buckets: Vec<Bucket> = Vec::new();
    let mut i: usize = 0;
    while i < n
        invariant
            0 <= i <= n,
            n == s.len(),
            s == files@,
            forall|k: int|
                0 <= k < buckets@.len() ==> (#[trigger] buckets@[k]).files@ == partners(
                    s.take(i as int),
                    buckets@[k].size,
                    buckets@[k].hash@,
                ),
            forall|k: int, l: int|
                0 <= k < l < buckets@.len() ==> !(buckets@[k].size == buckets@[l].size
                    && buckets@[k].hash@ == buckets@[l].hash@),
            forall|size: u64, hash: Seq<char>|
                #[trigger] partners(s.take(i as int), size, hash).len() >= 1 ==> exists|k: int|
                    0 <= k < buckets@.len() && (#[trigger] buckets@[k]).size == size
                        && buckets@[k].hash@ == hash,
        decreases n - i,
    {
        let ghost t0 = s.take(i as int);
        let ghost t1 = s.take(i + 1 as int);
        let ghost fv = s[i as int];
        let ghost bs0 = buckets@;
        proof {
            assert(t0.push(fv) =~= t1);
            assert forall|size: u64, hash: Seq<char>| #[trigger] partners(t1, size, hash) == (
            if fv.size == size && fv.hash@ == hash {
                partners(t0, size, hash).push(fv)
            } else {
                partners(t0, size, hash)
            }) by {
                lemma_filter_push(t0, fv, partner_pred(size, hash));
            }
        }
        let f = &files[i];
        // find the bucket for this record's size and hash
        let m = buckets.len();
        let mut k: usize = 0;
        let mut found = false;
        while k < m && !found
            invariant
                0 <= k <= m,
                m == buckets@.len(),
                i < n,
                n == s.len(),
                s == files@,
                fv == s[i as int],
                !found ==> forall|l: int|
                    0 <= l < k ==> !((#[trigger] buckets@[l]).size == fv.size && buckets@[l].hash@
                        == fv.hash@),
                found ==> k < m && buckets@[k as int].size == fv.size && buckets@[k as int].hash@
                    == fv.hash@,
            decreases m - k + (if found { 0int } else { 1int }),
        {
            if buckets[k].size == files[i].size && str_eq_string(&buckets[k].hash, &files[i].hash) {
                found = true;
            } else {
                k = k + 1;
            }
        }
        if found {
            let mut b = buckets.remove(k);
            b.files.push(files[i].duplicate());
            buckets.insert(k, b);
            proof {
                assert(buckets@ =~= bs0.update(k as int, buckets@[k as int]));
                assert(buckets@[k as int].files@ =~= partners(
                    t1,
                    buckets@[k as int].size,
                    buckets@[k as int].hash@,
                ));
                assert forall|l: int| 0 <= l < buckets@.len() && l != k implies (#[trigger] buckets@[l]).files@ == partners(t1, buckets@[l].size, buckets@[l].hash@) by {
                    assert(buckets@[l] == bs0[l]);
                    assert(!(buckets@[l].size == fv.size && buckets@[l].hash@ == fv.hash@));
                }
                assert forall|size: u64, hash: Seq<char>| #[trigger] partners(
                    t1,
                    size,
                    hash,
                ).len() >= 1 implies exists|l: int|
                    0 <= l < buckets@.len() && (#[trigger] buckets@[l]).size == size
                        && buckets@[l].hash@ == hash by {
                    if fv.size == size && fv.hash@ == hash {
                        assert(buckets@[k as int].size == size && buckets@[k as int].hash@ == hash);
                    } else {
                        assert(partners(t0, size, hash).len() >= 1);
                        let l = choose|l: int|
                            0 <= l < bs0.len() && (#[trigger] bs0[l]).size == size && bs0[l].hash@
                                == hash;
                        assert(buckets@[l].size == size && buckets@[l].hash@ == hash);
                    }
                }
            }
        } else {
            let mut bf: Vec<FileInfo> = Vec::new();
            bf.push(files[i].duplicate());
            let b = Bucket { size: files[i].size, hash: files[i].hash.clone(), files: bf };
            buckets.push(b);
            proof {
                let bl = buckets@.len() - 1;
                assert(partners(t0, fv.size, fv.hash@).len() == 0) by {
                    if partners(t0, fv.size, fv.hash@).len() >= 1 {
                        let l = choose|l: int|
                            0 <= l < buckets@.len() - 1 && (#[trigger] buckets@.drop_last()[l]).size == fv.size && buckets@.drop_last()[l].hash@ == fv.hash@;
                    }
                }
                assert(buckets@[bl].files@ =~= partners(t1, buckets@[bl].size, buckets@[bl].hash@));
                assert forall|l: int| 0 <= l < bl implies (#[trigger] buckets@[l]).files@
                    == partners(t1, buckets@[l].size, buckets@[l].hash@) by {
                    assert(buckets@[l] == bs0[l]);
                    assert(!(buckets@[l].size == fv.size && buckets@[l].hash@ == fv.hash@));
                }
                assert forall|size: u64, hash: Seq<char>| #[trigger] partners(
                    t1,
                    size,
                    hash,
                ).len() >= 1 implies exists|l: int|
                    0 <= l < buckets@.len() && (#[trigger] buckets@[l]).size == size
                        && buckets@[l].hash@ == hash by {
                    if fv.size == size && fv.hash@ == hash {
                        assert(buckets@[bl].size == size && buckets@[bl].hash@ == hash);
                    } else {
                        assert(partners(t0, size, hash).len() >= 1);
                        let l = choose|l: int|
                            0 <= l < bs0.len() && (#[trigger] bs0[l]).size == size && bs0[l].hash@
                                == hash;
                        assert(buckets@[l].size == size && buckets@[l].hash@ == hash);
                    }
                }
            }
        }
        i = i + 1;
    }
    proof {
        assert(s.take(n as int) =~= s);
    }

    // second pass: a bucket with at least two records becomes a group
    let mut groups: Vec<DuplicateGroup> = Vec::new();
    let m = buckets.len();
    let mut k: usize = 0;
    while k < m
        invariant
            0 <= k <= m,
            m == buckets@.len(),
            sum_sizes(s) <= u64::MAX,
            forall|l: int|
                0 <= l < buckets@.len() ==> (#[trigger] buckets@[l]).files@ == partners(
                    s,
                    buckets@[l].size,
                    buckets@[l].hash@,
                ),
            forall|l: int, l2: int|
                0 <= l < l2 < buckets@.len() ==> !(buckets@[l].size == buckets@[l2].size
                    && buckets@[l].hash@ == buckets@[l2].hash@),
            forall|size: u64, hash: Seq<char>|
                #[trigger] partners(s, size, hash).len() >= 1 ==> exists|l: int|
                    0 <= l < buckets@.len() && (#[trigger] buckets@[l]).size == size
                        && buckets@[l].hash@ == hash,
            forall|a: int|
                0 <= a < groups@.len() ==> (#[trigger] groups@[a]).wf() && groups@[a].files@
                    == partners(s, groups@[a].size, groups@[a].hash@),
            forall|a: int|
                0 <= a < groups@.len() ==> exists|l: int|
                    0 <= l < k && (#[trigger] buckets@[l]).size == (#[trigger] groups@[a]).size
                        && buckets@[l].hash@ == groups@[a].hash@,
            forall|l: int|
                0 <= l < k && (#[trigger] buckets@[l]).files@.len() >= 2 ==> exists|a: int|
                    0 <= a < groups@.len() && (#[trigger] groups@[a]).size == buckets@[l].size
                        && groups@[a].hash@ == buckets@[l].hash@,
            forall|a: int, b: int|
                0 <= a < b < groups@.len() ==> !(groups@[a].size == groups@[b].size && groups@[a].hash@ == groups@[b].hash@),
        decreases m - k,
    {
        let blen = buckets[k].files.len();
        if blen >= 2 {
            let size = buckets[k].size;
            let ghost bh = buckets@[k as int].hash@;
            let ghost bfiles = buckets@[k as int].files@;
            proof {
                assert(bfiles == partners(s, size, bh));
                lemma_partners_facts(s, size, bh);
                lemma_sum_sizes_const(bfiles, size);
                assert(sum_sizes(bfiles) == size * blen);
                assert(size * blen <= u64::MAX);
                assert(size * blen >= size * 1) by (nonlinear_arith)
                    requires
                        blen >= 1,
                        size >= 0,
                ;
            }
            let total: u64 = size * (blen as u64);
            let g = DuplicateGroup {
                hash: buckets[k].hash.clone(),
                size,
                files: duplicate_records(&buckets[k].files),
                total_size: total,
                potential_savings: total - size,
            };
            assert(g.wf());
            let ghost gs0 = groups@;
            groups.push(g);
            proof {
                let ga = groups@.len() - 1;
                assert(groups@[ga].size == buckets@[k as int].size && groups@[ga].hash@
                    == buckets@[k as int].hash@);
                assert forall|l: int|
                    0 <= l < k + 1 && (#[trigger] buckets@[l]).files@.len() >= 2 implies exists|
                    a: int,
                |
                    0 <= a < groups@.len() && (#[trigger] groups@[a]).size == buckets@[l].size
                        && groups@[a].hash@ == buckets@[l].hash@ by {
                    if l == k {
                        assert(groups@[ga].size == buckets@[l].size && groups@[ga].hash@
                            == buckets@[l].hash@);
                    } else {
                        let a = choose|a: int|
                            0 <= a < gs0.len() && (#[trigger] gs0[a]).size == buckets@[l].size
                                && gs0[a].hash@ == buckets@[l].hash@;
                        assert(groups@[a].size == buckets@[l].size && groups@[a].hash@
                            == buckets@[l].hash@);
                    }
                }
            }
        }
        k = k + 1;
    }
    proof {
        // every size/hash pair with two sharers got a group
        assert forall|size: u64, hash: Seq<char>|
            #[trigger] partners(s, size, hash).len() >= 2 implies exists|a: int|
            0 <= a < groups@.len() && (#[trigger] groups@[a]).size == size && groups@[a].hash@
                == hash by {
            assert(partners(s, size, hash).len() >= 1);
            let l = choose|l: int|
                0 <= l < buckets@.len() && (#[trigger] buckets@[l]).size == size && buckets@[l].hash@ == hash;
            assert(buckets@[l].files@.len() >= 2);
        }
    }
    groups
}

} // verus!
