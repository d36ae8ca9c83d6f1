//! Operations on sequences of buckets: merging, filtering, running totals,
//! and the laws of merging.

use crate::date::EPOCH_DAY;
use crate::stats::grouping::{
    all_non_negative, bucket_entries, lemma_total_of_insert, lemma_total_of_prefix, sum_of, total_of,
    Entry,
};
use crate::stats::types::{net_of, PeriodStats, Totals};
use vstd::prelude::*;

verus! {

/// Merging is commutative: the order of two buckets does not matter.
pub proof fn lemma_merge_commutative(a: Totals, b: Totals)
    ensures
        a.plus(b) == b.plus(a),
{
}

/// Merging is associative: how merges are nested does not matter.
pub proof fn lemma_merge_associative(a: Totals, b: Totals, c: Totals)
    ensures
        a.plus(b).plus(c) == a.plus(b.plus(c)),
{
}

/// Merging the same buckets in another order gives the same totals.
pub proof fn lemma_merge_order(a: Seq<PeriodStats>, b: Seq<PeriodStats>)
    requires
        a.to_multiset() == b.to_multiset(),
    ensures
        sum_of(a) == sum_of(b),
    decreases a.len(),
{
    vstd::seq_lib::to_multiset_len(a);
    vstd::seq_lib::to_multiset_len(b);
    assert(a.len() == b.len());
    if a.len() == 0 {
        assert(bucket_entries(a) =~= bucket_entries(b));
    } else {
        let x = a.last();
        let shorter = a.drop_last();
        // `x` stands somewhere in `b`
        vstd::seq_lib::to_multiset_contains(a, x);
        vstd::seq_lib::to_multiset_contains(b, x);
        assert(a.contains(x)) by {
            assert(a[a.len() - 1] == x);
        }
        let at = choose|at: int| 0 <= at < b.len() && b[at] == x;
        let others = b.remove(at);
        // without it, the same buckets are left on both sides
        vstd::seq_lib::to_multiset_remove(a, a.len() - 1);
        vstd::seq_lib::to_multiset_remove(b, at);
        assert(a.remove(a.len() - 1) =~= shorter);
        lemma_merge_order(shorter, others);
        // and it counts the same wherever it stands
        let entry = Entry { day: x.date@, totals: x.totals() };
        assert(bucket_entries(b) =~= bucket_entries(others).insert(at, entry));
        lemma_total_of_insert(bucket_entries(others), at, entry);
        assert(bucket_entries(a).drop_last() =~= bucket_entries(shorter));
        assert(bucket_entries(a).last() == entry);
    }
}

/// Merges the buckets into one.
///
/// No bucket gives the default bucket, one bucket gives that bucket as it
/// is. Two or more give the first bucket's label and date with the sum of
/// all counters.
pub fn merge_stats(stats: &[PeriodStats]) -> (r: PeriodStats)
    requires
        stats@.len() >= 2 ==> sum_of(stats@).within_limits(),
    ensures
        stats@.len() == 0 ==> {
            &&& r.label@ == Seq::<char>::empty()
            &&& r.date@ == EPOCH_DAY
            &&& r.totals() == Totals::zero()
            &&& r.net_lines == 0
        },
        stats@.len() == 1 ==> r == stats@[0],
        stats@.len() >= 2 ==> {
            &&& r.label == stats@[0].label
            &&& r.date == stats@[0].date
            &&& r.totals() == sum_of(stats@)
            &&& r.net_consistent()
        },
{
    if stats.len() == 0 {
        return PeriodStats::default();
    }
    let mut result = stats[0].clone();
    if stats.len() == 1 {
        return result;
    }
    let ghost entries = bucket_entries(stats@);
    proof {
        assert(entries.take(1).drop_last() =~= Seq::<Entry>::empty());
        assert(entries.take(1).last() == entries[0]);
        assert(total_of(entries.take(1).drop_last()) == Totals::zero());
        assert(total_of(entries.take(1)) == result.totals());
    }
    let mut i: usize = 1;
    while i < stats.len()
        invariant
            1 <= i <= stats@.len(),
            stats@.len() >= 2,
            entries == bucket_entries(stats@),
            all_non_negative(entries),
            total_of(entries).within_limits(),
            result.label == stats@[0].label,
            result.date == stats@[0].date,
            result.totals() == total_of(entries.take(i as int)),
            i >= 2 ==> result.net_consistent(),
        decreases stats@.len() - i,
    {
        proof {
            lemma_total_of_prefix(entries, i + 1);
            assert(entries.take(i + 1).drop_last() =~= entries.take(i as int));
            assert(entries.take(i + 1).last() == entries[i as int]);
        }
        result.merge(&stats[i]);
        i = i + 1;
    }
    assert(entries.take(i as int) =~= entries);
    result
}

/// Keeps the buckets in which commits, additions or deletions are not zero,
/// in their order.
pub fn filter_non_zero(stats: Vec<PeriodStats>) -> (r: Vec<PeriodStats>)
    ensures
        r@ == stats@.filter(|s: PeriodStats| s.active()),
{
    let ghost keep = |s: PeriodStats| s.active();
    let mut out: Vec<PeriodStats> = Vec::new();
    proof {
        reveal(Seq::filter);
        assert(stats@.take(0) =~= Seq::<PeriodStats>::empty());
        assert(stats@.take(0).filter(keep) =~= Seq::<PeriodStats>::empty());
    }
    for s in it: stats
        invariant
            it.seq() == stats@,
            keep == |s: PeriodStats| s.active(),
            out@ == it.seq().take(it.index() as int).filter(keep),
    {
        proof {
            let before = it.seq().take(it.index() as int);
            assert(it.seq().take(it.index() + 1) =~= before.push(s));
            before.lemma_filter_push(s, keep);
        }
        if s.commits > 0 || s.additions > 0 || s.deletions > 0 {
            out.push(s);
        }
    }
    assert(stats@.take(stats@.len() as int) =~= stats@);
    out
}

/// The running totals of the buckets: the bucket at each position keeps
/// its label and date and holds the sum of the counters up to and
/// including its own.
pub fn running_totals(stats: &[PeriodStats]) -> (r: Vec<PeriodStats>)
    requires
        sum_of(stats@).within_limits(),
    ensures
        r@.len() == stats@.len(),
        forall|i: int|
            0 <= i < r@.len() ==> {
                &&& (#[trigger] r@[i]).label == stats@[i].label
                &&& r@[i].date == stats@[i].date
                &&& r@[i].totals() == sum_of(stats@.take(i + 1))
                &&& r@[i].net_consistent()
            },
{
    let ghost entries = bucket_entries(stats@);
    let mut out: Vec<PeriodStats> = Vec::new();
    let mut commits: u32 = 0;
    let mut additions: u64 = 0;
    let mut deletions: u64 = 0;
    let mut files_changed: u32 = 0;
    let mut i: usize = 0;
    proof {
        assert(entries.take(0) =~= Seq::<Entry>::empty());
    }
    while i < stats.len()
        invariant
            i <= stats@.len(),
            entries == bucket_entries(stats@),
            all_non_negative(entries),
            total_of(entries).within_limits(),
            total_of(entries.take(i as int)) == (Totals {
                commits: commits as int,
                additions: additions as int,
                deletions: deletions as int,
                files_changed: files_changed as int,
            }),
            out@.len() == i,
            forall|k: int|
                0 <= k < i ==> {
                    &&& (#[trigger] out@[k]).label == stats@[k].label
                    &&& out@[k].date == stats@[k].date
                    &&& out@[k].totals() == sum_of(stats@.take(k + 1))
                    &&& out@[k].net_consistent()
                },
        decreases stats@.len() - i,
    {
        let stat = &stats[i];
        proof {
            lemma_total_of_prefix(entries, i + 1);
            assert(entries.take(i + 1).drop_last() =~= entries.take(i as int));
            assert(entries.take(i + 1).last() == entries[i as int]);
            assert(bucket_entries(stats@.take(i + 1)) =~= entries.take(i + 1));
        }
        commits = commits + stat.commits;
        additions = additions + stat.additions;
        deletions = deletions + stat.deletions;
        files_changed = files_changed + stat.files_changed;
        out.push(
            PeriodStats {
                label: stat.label.clone(),
                date: stat.date,
                commits,
                additions,
                deletions,
                net_lines: net_of(additions, deletions),
                files_changed,
            },
        );
        i = i + 1;
    }
    out
}

} // verus!
