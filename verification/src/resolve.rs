//! The duplicate resolver: given the full collision index, find every record
//! whose fingerprint occurs at least twice across the run.
//!
//! Grouping is hash-based: records are bucketed in a hash map keyed by a
//! 64-bit prefix of the fingerprint, and a record's fingerprint is compared
//! only against the records of its own bucket. Records are then emitted in
//! insertion order, so the result is deterministic.

use std::collections::HashMap;
use vstd::prelude::*;
use crate::hex::bytes_eq;
use crate::index::CollisionIndex;
use crate::record::RecordV;

verus! {

broadcast use vstd::std_specs::hash::group_hash_axioms;

/// How often `fp` occurs among the fingerprints of the first `n` records.
pub open spec fn fp_count_upto(recs: Seq<RecordV>, fp: Seq<u8>, n: int) -> nat
    decreases n,
{
    if n <= 0 {
        0
    } else {
        fp_count_upto(recs, fp, n - 1) + if recs[n - 1].fingerprint == fp {
            1nat
        } else {
            0nat
        }
    }
}

/// How often `fp` occurs among the fingerprints of all records.
pub open spec fn fp_count(recs: Seq<RecordV>, fp: Seq<u8>) -> nat {
    fp_count_upto(recs, fp, recs.len() as int)
}

/// Whether the record at `i` collides: its fingerprint occurs at least twice.
pub open spec fn is_weak(recs: Seq<RecordV>, i: int) -> bool {
    fp_count(recs, recs[i].fingerprint) >= 2
}

/// The positions, in insertion order among the first `n` records, of every
/// record whose fingerprint occurs at least twice across the whole sequence.
pub open spec fn weak_indices_upto(recs: Seq<RecordV>, n: int) -> Seq<int>
    decreases n,
{
    if n <= 0 {
        Seq::empty()
    } else {
        weak_indices_upto(recs, n - 1) + if is_weak(recs, n - 1) {
            seq![n - 1]
        } else {
            Seq::empty()
        }
    }
}

/// The positions, in insertion order, of every colliding record.
pub open spec fn weak_indices(recs: Seq<RecordV>) -> Seq<int> {
    weak_indices_upto(recs, recs.len() as int)
}

/// The byte at position `i` of a fingerprint, or zero past its end.
pub open spec fn kb(fp: Seq<u8>, i: int) -> int {
    if i < fp.len() {
        fp[i] as int
    } else {
        0
    }
}

/// The grouping key of a fingerprint: its first eight bytes, big-endian.
pub open spec fn bucket_key(fp: Seq<u8>) -> int {
    ((((((kb(fp, 0) * 256 + kb(fp, 1)) * 256 + kb(fp, 2)) * 256 + kb(fp, 3)) * 256 + kb(fp, 4))
        * 256 + kb(fp, 5)) * 256 + kb(fp, 6)) * 256 + kb(fp, 7)
}

/// Every grouping key fits in 64 bits.
proof fn lemma_bucket_key_range(fp: Seq<u8>)
    ensures
        0 <= bucket_key(fp) <= u64::MAX,
{
}

/// The positions among the first `n` records whose fingerprints share the
/// grouping key `k`, in insertion order.
pub open spec fn idxs_with_key(recs: Seq<RecordV>, n: int, k: int) -> Seq<int>
    decreases n,
{
    if n <= 0 {
        Seq::empty()
    } else {
        idxs_with_key(recs, n - 1, k) + if bucket_key(recs[n - 1].fingerprint) == k {
            seq![n - 1]
        } else {
            Seq::empty()
        }
    }
}

/// How often `fp` occurs among the records at the listed positions.
pub open spec fn count_list(recs: Seq<RecordV>, idxs: Seq<int>, fp: Seq<u8>) -> nat
    decreases idxs.len(),
{
    if idxs.len() == 0 {
        0
    } else {
        count_list(recs, idxs.drop_last(), fp) + if recs[idxs.last()].fingerprint == fp {
            1nat
        } else {
            0nat
        }
    }
}

/// Every listed position for key `k` lies below `n` and has key `k`.
proof fn lemma_idxs_with_key_elems(recs: Seq<RecordV>, n: int, k: int)
    ensures
        forall|t: int|
            0 <= t < idxs_with_key(recs, n, k).len() ==> {
                let j = #[trigger] idxs_with_key(recs, n, k)[t];
                0 <= j < n && bucket_key(recs[j].fingerprint) == k
            },
    decreases n,
{
    if n > 0 {
        lemma_idxs_with_key_elems(recs, n - 1, k);
        let s = idxs_with_key(recs, n, k);
        let p = idxs_with_key(recs, n - 1, k);
        assert forall|t: int| 0 <= t < s.len() implies {
            let j = #[trigger] s[t];
            0 <= j < n && bucket_key(recs[j].fingerprint) == k
        } by {
            if t < p.len() {
                assert(s[t] == p[t]);
            } else {
                assert(s[t] == n - 1);
            }
        }
    }
}

/// A record's own position is listed under its own key.
proof fn lemma_idx_in_own_bucket(recs: Seq<RecordV>, n: int, j: int)
    requires
        0 <= j < n,
    ensures
        idxs_with_key(recs, n, bucket_key(recs[j].fingerprint)).len() > 0,
    decreases n,
{
    if j < n - 1 {
        lemma_idx_in_own_bucket(recs, n - 1, j);
    }
}

/// Appending one position adds that record's match, if any, to the count.
proof fn lemma_count_list_append(recs: Seq<RecordV>, idxs: Seq<int>, j: int, fp: Seq<u8>)
    ensures
        count_list(recs, idxs + seq![j], fp) == count_list(recs, idxs, fp) + if recs[j].fingerprint
            == fp {
            1nat
        } else {
            0nat
        },
{
    let ext = idxs + seq![j];
    assert(ext.drop_last() =~= idxs);
    assert(ext.last() == j);
}

/// Counting `fp` within its own bucket counts every match among the first `n`
/// records: matches of `fp` never land in another bucket.
proof fn lemma_count_bucket(recs: Seq<RecordV>, fp: Seq<u8>, n: int)
    ensures
        count_list(recs, idxs_with_key(recs, n, bucket_key(fp)), fp) == fp_count_upto(
            recs,
            fp,
            n,
        ),
    decreases n,
{
    let k = bucket_key(fp);
    if n <= 0 {
    } else {
        lemma_count_bucket(recs, fp, n - 1);
        if bucket_key(recs[n - 1].fingerprint) == k {
            assert(idxs_with_key(recs, n, k) =~= idxs_with_key(recs, n - 1, k) + seq![n - 1]);
            lemma_count_list_append(recs, idxs_with_key(recs, n - 1, k), n - 1, fp);
        } else {
            assert(recs[n - 1].fingerprint != fp);
            assert(idxs_with_key(recs, n, k) =~= idxs_with_key(recs, n - 1, k));
        }
    }
}

/// A position is emitted exactly when it is in range and its record collides.
pub proof fn lemma_weak_indices_iff(recs: Seq<RecordV>, n: int)
    requires
        0 <= n <= recs.len(),
    ensures
        forall|i: int|
            #[trigger] weak_indices_upto(recs, n).contains(i) <==> (0 <= i < n && is_weak(recs, i)),
    decreases n,
{
    if n > 0 {
        lemma_weak_indices_iff(recs, n - 1);
        assert forall|i: int| #[trigger]
            weak_indices_upto(recs, n).contains(i) <==> (0 <= i < n && is_weak(recs, i)) by {
            let s = weak_indices_upto(recs, n);
            let p = weak_indices_upto(recs, n - 1);
            if s.contains(i) {
                let t = choose|t: int| 0 <= t < s.len() && s[t] == i;
                if t < p.len() {
                    assert(p.contains(i));
                } else {
                    assert(is_weak(recs, n - 1) && i == n - 1);
                }
            }
            if 0 <= i < n && is_weak(recs, i) {
                if i < n - 1 {
                    assert(p.contains(i));
                    let t = choose|t: int| 0 <= t < p.len() && p[t] == i;
                    assert(s[t] == i);
                    assert(s.contains(i));
                } else {
                    assert(s[s.len() - 1] == i);
                    assert(s.contains(i));
                }
            }
        }
    }
}

/// A fingerprint held by two distinct records occurs at least twice.
pub proof fn lemma_two_records_count(recs: Seq<RecordV>, i: int, j: int, n: int)
    requires
        0 <= i < j < n <= recs.len(),
        recs[i].fingerprint == recs[j].fingerprint,
    ensures
        fp_count_upto(recs, recs[i].fingerprint, n) >= 2,
    decreases n,
{
    if j == n - 1 {
        lemma_one_record_count(recs, i, n - 1);
    } else {
        lemma_two_records_count(recs, i, j, n - 1);
    }
}

/// A fingerprint held by one record occurs at least once.
pub proof fn lemma_one_record_count(recs: Seq<RecordV>, i: int, n: int)
    requires
        0 <= i < n <= recs.len(),
    ensures
        fp_count_upto(recs, recs[i].fingerprint, n) >= 1,
    decreases n,
{
    if i < n - 1 {
        lemma_one_record_count(recs, i, n - 1);
    }
}

/// If exactly two distinct records share a fingerprint, the resolver emits
/// both of their positions.
pub proof fn lemma_pair_collision_both_emitted(recs: Seq<RecordV>, i: int, j: int)
    requires
        0 <= i < recs.len(),
        0 <= j < recs.len(),
        i != j,
        recs[i].fingerprint == recs[j].fingerprint,
    ensures
        weak_indices(recs).contains(i),
        weak_indices(recs).contains(j),
{
    if i < j {
        lemma_two_records_count(recs, i, j, recs.len() as int);
    } else {
        lemma_two_records_count(recs, j, i, recs.len() as int);
    }
    lemma_weak_indices_iff(recs, recs.len() as int);
}

/// A fingerprint that occurs only once is never emitted: no emitted position
/// carries it.
pub proof fn lemma_unique_fingerprint_not_emitted(recs: Seq<RecordV>, fp: Seq<u8>)
    requires
        fp_count(recs, fp) <= 1,
    ensures
        forall|i: int|
            #[trigger] weak_indices(recs).contains(i) ==> recs[i].fingerprint != fp,
{
    lemma_weak_indices_iff(recs, recs.len() as int);
}

/// What one resolution pass yields: the colliding positions in insertion
/// order, and the resolution counters.
pub struct Resolution {
    pub weak: Vec<usize>,
    pub comparisons: u64,
    pub weak_count: u64,
}

/// Find every record of the index whose fingerprint occurs at least twice.
pub fn resolve(index: &CollisionIndex) -> (r: Resolution)
    ensures
        r.weak@.map_values(|x: usize| x as int) == weak_indices(index@),
        r.comparisons == index@.len(),
        r.weak_count == weak_indices(index@).len(),
{
    let ghost recs = index@;
    let n = index.len();

    let mut buckets: HashMap<u64, Vec<usize>> = HashMap::new();
    for i in 0..n
        invariant
            n == recs.len(),
            recs == index@,
            forall|k: u64| #[trigger]
                buckets@.contains_key(k) ==> buckets@[k]@.map_values(|x: usize| x as int)
                    == idxs_with_key(recs, i as int, k as int),
            forall|k: u64|
                !(#[trigger] buckets@.contains_key(k)) ==> idxs_with_key(recs, i as int, k as int)
                    == Seq::<int>::empty(),
    {
        let rec = index.get(i);
        proof {
            lemma_bucket_key_range(rec@.fingerprint);
        }
        let ki = bucket_key_x(&rec.fingerprint);
        let mut lst: Vec<usize> = match buckets.remove(&ki) {
            Some(v) => v,
            None => Vec::new(),
        };
        let ghost lst_pre = lst@;
        proof {
            assert(lst_pre.map_values(|x: usize| x as int) =~= idxs_with_key(
                recs,
                i as int,
                ki as int,
            ));
        }
        lst.push(i);
        buckets.insert(ki, lst);
        proof {
            assert(lst_pre.push(i).map_values(|x: usize| x as int) =~= lst_pre.map_values(
                |x: usize| x as int,
            ).push(i as int));
            assert(idxs_with_key(recs, i + 1, ki as int) =~= idxs_with_key(recs, i as int, ki as int)
                + seq![i as int]);
            assert(lst_pre.push(i).map_values(|x: usize| x as int) =~= idxs_with_key(
                recs,
                i + 1,
                ki as int,
            ));
            assert forall|k: u64| #[trigger]
                buckets@.contains_key(k) implies buckets@[k]@.map_values(|x: usize| x as int)
                == idxs_with_key(recs, i + 1, k as int) by {
                if k != ki {
                    assert(idxs_with_key(recs, i + 1, k as int) =~= idxs_with_key(
                        recs,
                        i as int,
                        k as int,
                    ));
                }
            }
            assert forall|k: u64|
                !(#[trigger] buckets@.contains_key(k)) implies idxs_with_key(
                recs,
                i + 1,
                k as int,
            ) == Seq::<int>::empty() by {
                assert(idxs_with_key(recs, i + 1, k as int) =~= idxs_with_key(
                    recs,
                    i as int,
                    k as int,
                ));
            }
        }
    }

    let mut weak: Vec<usize> = Vec::new();
    for i in 0..n
        invariant
            n == recs.len(),
            recs == index@,
            forall|k: u64| #[trigger]
                buckets@.contains_key(k) ==> buckets@[k]@.map_values(|x: usize| x as int)
                    == idxs_with_key(recs, n as int, k as int),
            forall|k: u64|
                !(#[trigger] buckets@.contains_key(k)) ==> idxs_with_key(recs, n as int, k as int)
                    == Seq::<int>::empty(),
            weak@.map_values(|x: usize| x as int) == weak_indices_upto(recs, i as int),
    {
        let rec = index.get(i);
        proof {
            lemma_bucket_key_range(rec@.fingerprint);
            lemma_idx_in_own_bucket(recs, n as int, i as int);
        }
        let ki = bucket_key_x(&rec.fingerprint);
        let lst_opt = buckets.get(&ki);
        proof {
            if lst_opt is None {
                assert(!buckets@.contains_key(ki));
            }
        }
        let lst = lst_opt.unwrap();
        let ghost idxs = idxs_with_key(recs, n as int, ki as int);
        proof {
            lemma_idxs_with_key_elems(recs, n as int, ki as int);
        }
        let m = lst.len();
        let mut cnt: usize = 0;
        for t in 0..m
            invariant
                n == recs.len(),
                recs == index@,
                m == lst@.len(),
                lst@.map_values(|x: usize| x as int) == idxs,
                idxs == idxs_with_key(recs, n as int, ki as int),
                forall|u: int|
                    0 <= u < idxs.len() ==> {
                        let j = #[trigger] idxs[u];
                        0 <= j < n && bucket_key(recs[j].fingerprint) == ki as int
                    },
                cnt <= t,
                cnt == count_list(recs, idxs.subrange(0, t as int), rec@.fingerprint),
        {
            let j = lst[t];
            proof {
                assert(idxs[t as int] == j as int);
                assert(idxs.subrange(0, t + 1).drop_last() =~= idxs.subrange(0, t as int));
                assert(idxs.subrange(0, t + 1).last() == j as int);
            }
            let other = index.get(j);
            if bytes_eq(&other.fingerprint, &rec.fingerprint) {
                cnt = cnt + 1;
            }
        }
        proof {
            assert(idxs.subrange(0, idxs.len() as int) =~= idxs);
            lemma_count_bucket(recs, rec@.fingerprint, n as int);
            assert(cnt == fp_count(recs, rec@.fingerprint));
        }
        let ghost weak_pre = weak@;
        if cnt >= 2 {
            weak.push(i);
            proof {
                assert(weak@ =~= weak_pre.push(i));
                assert(weak@.map_values(|x: usize| x as int) =~= weak_pre.map_values(
                    |x: usize| x as int,
                ).push(i as int));
                assert(weak_indices_upto(recs, i + 1) =~= weak_indices_upto(recs, i as int)
                    + seq![i as int]);
                assert(weak@.map_values(|x: usize| x as int) =~= weak_indices_upto(recs, i + 1));
            }
        } else {
            proof {
                assert(!is_weak(recs, i as int));
                assert(weak_indices_upto(recs, i + 1) =~= weak_indices_upto(recs, i as int));
            }
        }
    }
    proof {
        assert(weak@.map_values(|x: usize| x as int) == weak_indices(recs));
    }
    let weak_count = weak.len() as u64;
    Resolution { weak, comparisons: n as u64, weak_count }
}

/// The byte of a fingerprint at one position, or zero past its end.
fn byte_or_zero(fp: &Vec<u8>, i: usize) -> (b: u8)
    ensures
        b as int == kb(fp@, i as int),
{
    if i < fp.len() {
        fp[i]
    } else {
        0
    }
}

/// The grouping key of a fingerprint, as executable code.
fn bucket_key_x(fp: &Vec<u8>) -> (k: u64)
    ensures
        k as int == bucket_key(fp@),
{
    let b0 = byte_or_zero(fp, 0) as u64;
    let b1 = byte_or_zero(fp, 1) as u64;
    let b2 = byte_or_zero(fp, 2) as u64;
    let b3 = byte_or_zero(fp, 3) as u64;
    let b4 = byte_or_zero(fp, 4) as u64;
    let b5 = byte_or_zero(fp, 5) as u64;
    let b6 = byte_or_zero(fp, 6) as u64;
    let b7 = byte_or_zero(fp, 7) as u64;
    ((((((b0 * 256 + b1) * 256 + b2) * 256 + b3) * 256 + b4) * 256 + b5) * 256 + b6) * 256 + b7
}

} // verus!
