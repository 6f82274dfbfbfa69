//! The duplicate finder: groups candidate files by exact content digest
//! and keeps only groups with two or more members. Equal digests are
//! taken to mean equal content; the digest itself comes from the content
//! hasher.

use vstd::prelude::*;
use crate::hasher::{digest_hex, hex_of};

verus! {

/// A candidate file whose content digest has already been computed from
/// its byte stream.
#[derive(Clone, Debug, PartialEq)]
pub struct HashedFile {
    pub path: String,
    pub size: u64,
    pub digest: Vec<u8>,
}

/// Files sharing one content digest: the digest as lowercase hex, the
/// members' paths in input order, and the byte size of the first member.
#[derive(Clone, Debug, PartialEq)]
pub struct DuplicateGroup {
    pub hash: String,
    pub files: Vec<String>,
    pub size: u64,
}

/// The paths of the files carrying digest `d`, in input order.
pub open spec fn paths_with_digest(files: Seq<HashedFile>, d: Seq<u8>) -> Seq<String>
    decreases files.len(),
{
    if files.len() == 0 {
        Seq::empty()
    } else if files.last().digest@ == d {
        paths_with_digest(files.drop_last(), d).push(files.last().path)
    } else {
        paths_with_digest(files.drop_last(), d)
    }
}

/// How many files carry digest `d`.
pub open spec fn digest_count(files: Seq<HashedFile>, d: Seq<u8>) -> nat {
    paths_with_digest(files, d).len()
}

/// The size of the first file carrying digest `d` (0 when none does).
pub open spec fn first_size_with_digest(files: Seq<HashedFile>, d: Seq<u8>) -> u64
    decreases files.len(),
{
    if files.len() == 0 {
        0u64
    } else if files.first().digest@ == d {
        files.first().size
    } else {
        first_size_with_digest(files.drop_first(), d)
    }
}

/// The distinct digests of the files, in order of first occurrence.
pub open spec fn distinct_digests(files: Seq<HashedFile>) -> Seq<Seq<u8>>
    decreases files.len(),
{
    if files.len() == 0 {
        Seq::empty()
    } else {
        let init = distinct_digests(files.drop_last());
        if init.contains(files.last().digest@) {
            init
        } else {
            init.push(files.last().digest@)
        }
    }
}

/// Of the given digests, those carried by two or more files, in order.
pub open spec fn keep_dups(files: Seq<HashedFile>, ds: Seq<Seq<u8>>) -> Seq<Seq<u8>>
    decreases ds.len(),
{
    if ds.len() == 0 {
        Seq::empty()
    } else if digest_count(files, ds.last()) >= 2 {
        keep_dups(files, ds.drop_last()).push(ds.last())
    } else {
        keep_dups(files, ds.drop_last())
    }
}

/// The digests that appear at least twice, in order of first occurrence:
/// one duplicate group per entry.
pub open spec fn dup_digests(files: Seq<HashedFile>) -> Seq<Seq<u8>> {
    keep_dups(files, distinct_digests(files))
}

proof fn lemma_distinct_digests_no_dup(files: Seq<HashedFile>)
    ensures
        distinct_digests(files).no_duplicates(),
    decreases files.len(),
{
    if files.len() > 0 {
        lemma_distinct_digests_no_dup(files.drop_last());
        let init = distinct_digests(files.drop_last());
        let d = files.last().digest@;
        if !init.contains(d) {
            assert forall|i: int, j: int|
                (0 <= i < init.push(d).len() && 0 <= j < init.push(d).len() && i != j) implies
                init.push(d)[i] != init.push(d)[j] by {
                if i < init.len() && j < init.len() {
                    assert(init.push(d)[i] == init[i] && init.push(d)[j] == init[j]);
                } else if j == init.len() {
                    assert(init.push(d)[i] == init[i] && init.push(d)[j] == d);
                    if init[i] == d {
                        assert(init.contains(d));
                    }
                } else {
                    assert(init.push(d)[j] == init[j] && init.push(d)[i] == d);
                    if init[j] == d {
                        assert(init.contains(d));
                    }
                }
            }
        }
    }
}

proof fn lemma_keep_dups_distinct(files: Seq<HashedFile>, ds: Seq<Seq<u8>>)
    requires
        ds.no_duplicates(),
    ensures
        keep_dups(files, ds).no_duplicates(),
        forall|x: Seq<u8>| keep_dups(files, ds).contains(x) ==> ds.contains(x),
    decreases ds.len(),
{
    if ds.len() > 0 {
        assert(ds.drop_last().no_duplicates()) by {
            assert forall|i: int, j: int|
                (0 <= i < ds.drop_last().len() && 0 <= j < ds.drop_last().len() && i != j) implies
                ds.drop_last()[i] != ds.drop_last()[j] by {
                assert(ds[i] != ds[j]);
            }
        }
        lemma_keep_dups_distinct(files, ds.drop_last());
        let rec = keep_dups(files, ds.drop_last());
        let last = ds.last();
        assert(ds[ds.len() - 1] == last);
        assert forall|x: Seq<u8>|
            keep_dups(files, ds).contains(x) implies ds.contains(x) by {
            let k = choose|k: int|
                0 <= k < keep_dups(files, ds).len() && keep_dups(files, ds)[k] == x;
            if k < rec.len() {
                assert(rec[k] == x);
                assert(rec.contains(x));
                assert(ds.drop_last().contains(x));
                let p = choose|p: int| 0 <= p < ds.drop_last().len() && ds.drop_last()[p] == x;
                assert(ds[p] == x);
            } else {
                assert(keep_dups(files, ds)[k] == last);
            }
        }
        if digest_count(files, last) >= 2 {
            assert(!rec.contains(last)) by {
                if rec.contains(last) {
                    assert(ds.drop_last().contains(last));
                    let p = choose|p: int|
                        0 <= p < ds.drop_last().len() && ds.drop_last()[p] == last;
                    assert(ds[p] == ds[ds.len() - 1]);
                }
            }
            assert forall|i: int, j: int|
                (0 <= i < rec.push(last).len() && 0 <= j < rec.push(last).len() && i != j) implies
                rec.push(last)[i] != rec.push(last)[j] by {
                if i < rec.len() && j < rec.len() {
                    assert(rec.push(last)[i] == rec[i] && rec.push(last)[j] == rec[j]);
                } else if j == rec.len() {
                    assert(rec.push(last)[i] == rec[i] && rec.push(last)[j] == last);
                    if rec[i] == last {
                        assert(rec.contains(last));
                    }
                } else {
                    assert(rec.push(last)[j] == rec[j] && rec.push(last)[i] == last);
                    if rec[j] == last {
                        assert(rec.contains(last));
                    }
                }
            }
        }
    }
}

/// No digest yields two groups: the duplicate digests are pairwise
/// distinct, so each set of identical files forms exactly one group and
/// each file contributes to at most one group.
pub proof fn lemma_dup_digests_distinct(files: Seq<HashedFile>)
    ensures
        forall|k1: int, k2: int|
            0 <= k1 < k2 < dup_digests(files).len() ==> dup_digests(files)[k1] != dup_digests(
                files,
            )[k2],
{
    lemma_distinct_digests_no_dup(files);
    lemma_keep_dups_distinct(files, distinct_digests(files));
}

/// A digest is among the distinct digests exactly when some file carries it.
proof fn lemma_distinct_digests_contains(files: Seq<HashedFile>, d: Seq<u8>)
    ensures
        distinct_digests(files).contains(d) <==> exists|j: int|
            0 <= j < files.len() && (#[trigger] files[j]).digest@ == d,
    decreases files.len(),
{
    if files.len() > 0 {
        lemma_distinct_digests_contains(files.drop_last(), d);
        let init = distinct_digests(files.drop_last());
        let last = files.last();
        assert(files[files.len() - 1] == last);
        assert forall|j: int| 0 <= j < files.len() - 1 implies #[trigger] files.drop_last()[j]
            == files[j] by {}
        if distinct_digests(files).contains(d) {
            let k = choose|k: int|
                0 <= k < distinct_digests(files).len() && distinct_digests(files)[k] == d;
            if init.contains(last.digest@) {
                assert(init[k] == d);
                assert(init.contains(d));
                let j = choose|j: int|
                    0 <= j < files.drop_last().len() && (#[trigger] files.drop_last()[j]).digest@
                        == d;
                assert(files[j].digest@ == d);
            } else if k < init.len() {
                assert(init.push(last.digest@)[k] == init[k]);
                assert(init.contains(d));
                let j = choose|j: int|
                    0 <= j < files.drop_last().len() && (#[trigger] files.drop_last()[j]).digest@
                        == d;
                assert(files[j].digest@ == d);
            } else {
                assert(distinct_digests(files)[k] == last.digest@);
                assert(files[files.len() - 1].digest@ == d);
            }
        }
        if exists|j: int| 0 <= j < files.len() && (#[trigger] files[j]).digest@ == d {
            let j = choose|j: int| 0 <= j < files.len() && (#[trigger] files[j]).digest@ == d;
            if j < files.len() - 1 {
                assert(files.drop_last()[j].digest@ == d);
                assert(init.contains(d));
                let k = choose|k: int| 0 <= k < init.len() && init[k] == d;
                if init.contains(last.digest@) {
                    assert(distinct_digests(files)[k] == d);
                } else {
                    assert(init.push(last.digest@)[k] == d);
                }
                assert(distinct_digests(files).contains(d));
            } else {
                assert(last.digest@ == d);
                if init.contains(last.digest@) {
                    assert(distinct_digests(files).contains(d));
                } else {
                    assert(init.push(d)[init.len() as int] == d);
                    assert(distinct_digests(files).contains(d));
                }
            }
        }
    }
}

/// When no file before index `i` carries digest `d` and the file at `i`
/// does, the first size with digest `d` is that file's size.
proof fn lemma_first_size_at(files: Seq<HashedFile>, d: Seq<u8>, i: int)
    requires
        0 <= i < files.len(),
        files[i].digest@ == d,
        forall|j: int| 0 <= j < i ==> (#[trigger] files[j]).digest@ != d,
    ensures
        first_size_with_digest(files, d) == files[i].size,
    decreases i,
{
    if i > 0 {
        assert(files.first().digest@ != d);
        assert(files.drop_first()[i - 1] == files[i]);
        assert forall|j: int| 0 <= j < i - 1 implies (#[trigger] files.drop_first()[j]).digest@
            != d by {
            assert(files.drop_first()[j] == files[j + 1]);
        }
        lemma_first_size_at(files.drop_first(), d, i - 1);
    }
}

/// Compare two digests byte for byte.
fn bytes_eq(a: &Vec<u8>, b: &Vec<u8>) -> (r: bool)
    ensures
        r == (a@ == b@),
{
    if a.len() != b.len() {
        proof {
            assert(a@.len() != b@.len());
        }
        return false;
    }
    let n = a.len();
    let mut i: usize = 0;
    while i < n
        invariant
            i <= n,
            n == a@.len(),
            n == b@.len(),
            forall|k: int| 0 <= k < i ==> a@[k] == b@[k],
        decreases n - i,
    {
        if a[i] != b[i] {
            return false;
        }
        i += 1;
    }
    proof {
        assert(a@ =~= b@);
    }
    true
}

/// Group the candidate files by exact digest equality and return one group
/// per digest carried by at least two files, in order of the digest's
/// first occurrence. Each group lists its members' paths in input order,
/// renders the shared digest as lowercase hex, and takes its size from the
/// group's first member. Files with unique content appear in no group.
pub fn find_duplicates(files: &Vec<HashedFile>) -> (groups: Vec<DuplicateGroup>)
    ensures
        groups@.len() == dup_digests(files@).len(),
        forall|k: int|
            0 <= k < groups@.len() ==> {
                let d = dup_digests(files@)[k];
                &&& (#[trigger] groups@[k]).hash@ == hex_of(d)
                &&& groups@[k].files@ == paths_with_digest(files@, d)
                &&& groups@[k].files@.len() >= 2
                &&& groups@[k].size == first_size_with_digest(files@, d)
            },
{
    let mut groups: Vec<DuplicateGroup> = Vec::new();
    let n = files.len();
    let mut i: usize = 0;
    while i < n
        invariant
            i <= n,
            n == files@.len(),
            groups@.len() == keep_dups(files@, distinct_digests(files@.take(i as int))).len(),
            forall|k: int|
                0 <= k < groups@.len() ==> {
                    let d = keep_dups(files@, distinct_digests(files@.take(i as int)))[k];
                    &&& (#[trigger] groups@[k]).hash@ == hex_of(d)
                    &&& groups@[k].files@ == paths_with_digest(files@, d)
                    &&& groups@[k].files@.len() >= 2
                    &&& groups@[k].size == first_size_with_digest(files@, d)
                },
        decreases n - i,
    {
        proof {
            assert(files@.take(i + 1).drop_last() =~= files@.take(i as int));
            assert(files@.take(i + 1).last() == files@[i as int]);
        }
        // Is this the digest's first occurrence?
        let mut seen = false;
        let mut j: usize = 0;
        while j < i
            invariant
                j <= i,
                i < n,
                n == files@.len(),
                seen == exists|t: int| 0 <= t < j && (#[trigger] files@[t]).digest@ == files@[i as int].digest@,
            decreases i - j,
        {
            if bytes_eq(&files[j].digest, &files[i].digest) {
                seen = true;
            }
            j += 1;
        }
        proof {
            let d = files@[i as int].digest@;
            let pre = files@.take(i as int);
            lemma_distinct_digests_contains(pre, d);
            if seen {
                let t = choose|t: int| 0 <= t < i && (#[trigger] files@[t]).digest@ == d;
                assert(pre[t].digest@ == d);
                assert(distinct_digests(pre).contains(d));
            } else if distinct_digests(pre).contains(d) {
                let j2 = choose|j2: int|
                    0 <= j2 < pre.len() && (#[trigger] pre[j2]).digest@ == d;
                assert(files@[j2].digest@ == d);
            }
            assert(seen == distinct_digests(pre).contains(d));
            if !distinct_digests(pre).contains(d) {
                assert(distinct_digests(pre).push(d).drop_last() =~= distinct_digests(pre));
                assert(distinct_digests(pre).push(d).last() == d);
            }
        }
        if !seen {
            // First occurrence: collect every member of this digest's group.
            let ghost d = files@[i as int].digest@;
            let mut paths: Vec<String> = Vec::new();
            let mut k: usize = 0;
            while k < n
                invariant
                    k <= n,
                    i < n,
                    n == files@.len(),
                    paths@ == paths_with_digest(files@.take(k as int), files@[i as int].digest@),
                decreases n - k,
            {
                proof {
                    assert(files@.take(k + 1).drop_last() =~= files@.take(k as int));
                    assert(files@.take(k + 1).last() == files@[k as int]);
                }
                if bytes_eq(&files[k].digest, &files[i].digest) {
                    paths.push(files[k].path.clone());
                }
                k += 1;
            }
            proof {
                assert(files@.take(n as int) =~= files@);
            }
            proof {
                assert forall|j2: int| 0 <= j2 < i implies (#[trigger] files@[j2]).digest@
                    != d by {}
            }
            if paths.len() >= 2 {
                let hash = digest_hex(&files[i].digest);
                let group = DuplicateGroup { hash, files: paths, size: files[i].size };
                groups.push(group);
                proof {
                    lemma_first_size_at(files@, d, i as int);
                }
            }
        }
        i += 1;
    }
    proof {
        assert(files@.take(n as int) =~= files@);
    }
    groups
}

} // verus!
