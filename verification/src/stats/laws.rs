//! What holds of every grouping: nothing is lost and nothing is counted
//! twice, whatever the period.

use crate::cli::args::Period;
use crate::stats::grouping::{
    bucket_entries, distinct_dates, earliest_of_group, group_total, grouped, has_day, has_group,
    is_group,
    lemma_group_total_push, lemma_total_of_push, period_key, sum_of, total_of, Entry,
};
use crate::stats::types::{PeriodStats, Totals};
use vstd::prelude::*;

verus! {

/// No two buckets stand for the same group.
pub open spec fn distinct_groups(period: Period, buckets: Seq<PeriodStats>) -> bool {
    forall|a: int, b: int|
        0 <= a < b < buckets.len() ==> period_key(period, (#[trigger] buckets[a]).date@)
            != period_key(period, (#[trigger] buckets[b]).date@)
}

/// One of the first `n` buckets stands for the group with the given key.
pub open spec fn key_among(period: Period, buckets: Seq<PeriodStats>, key: (int, int), n: int) -> bool {
    exists|j: int| 0 <= j < n && period_key(period, (#[trigger] buckets[j]).date@) == key
}

/// Sum over the groups that the first `n` buckets stand for.
pub open spec fn groups_total(
    entries: Seq<Entry>,
    period: Period,
    buckets: Seq<PeriodStats>,
    n: nat,
) -> Totals
    decreases n,
{
    if n == 0 {
        Totals::zero()
    } else {
        groups_total(entries, period, buckets, (n - 1) as nat).plus(
            group_total(entries, period, period_key(period, buckets[n - 1].date@)),
        )
    }
}

/// In a grouping no two buckets stand for the same group: each is dated
/// by the earliest day of its group, and their dates differ.
pub proof fn lemma_groups_are_distinct(
    entries: Seq<Entry>,
    period: Period,
    buckets: Seq<PeriodStats>,
)
    requires
        grouped(entries, period, buckets),
    ensures
        distinct_groups(period, buckets),
{
    assert forall|a: int, b: int| 0 <= a < b < buckets.len() implies period_key(
        period,
        (#[trigger] buckets[a]).date@,
    ) != period_key(period, (#[trigger] buckets[b]).date@) by {
        let first = buckets[a].date@;
        let second = buckets[b].date@;
        if period_key(period, first) == period_key(period, second) {
            assert(is_group(entries, period, buckets[a]));
            assert(is_group(entries, period, buckets[b]));
            assert(first < second);
            let w = choose|i: int| 0 <= i < entries.len() && (#[trigger] entries[i]).day == first;
            assert(second <= entries[w].day);
        }
    }
}

/// Without entries every group is empty.
proof fn lemma_groups_total_of_nothing(period: Period, buckets: Seq<PeriodStats>, n: nat)
    ensures
        groups_total(Seq::<Entry>::empty(), period, buckets, n) == Totals::zero(),
    decreases n,
{
    if n > 0 {
        lemma_groups_total_of_nothing(period, buckets, (n - 1) as nat);
    }
}

/// One more entry adds its counters to the sum over the groups exactly
/// where one of the groups is its own.
proof fn lemma_groups_total_push(
    entries: Seq<Entry>,
    e: Entry,
    period: Period,
    buckets: Seq<PeriodStats>,
    n: nat,
)
    requires
        n <= buckets.len(),
        distinct_groups(period, buckets),
    ensures
        groups_total(entries.push(e), period, buckets, n) == if key_among(
            period,
            buckets,
            period_key(period, e.day),
            n as int,
        ) {
            groups_total(entries, period, buckets, n).plus(e.totals)
        } else {
            groups_total(entries, period, buckets, n)
        },
    decreases n,
{
    if n > 0 {
        let key = period_key(period, e.day);
        let last = buckets[n - 1];
        lemma_groups_total_push(entries, e, period, buckets, (n - 1) as nat);
        lemma_group_total_push(entries, e, period, period_key(period, last.date@));
        if period_key(period, last.date@) == key {
            assert(key_among(period, buckets, key, n as int));
            if key_among(period, buckets, key, n - 1) {
                let j = choose|j: int|
                    0 <= j < n - 1 && period_key(period, (#[trigger] buckets[j]).date@) == key;
                assert(period_key(period, buckets[j].date@) != period_key(period, last.date@));
            }
        } else {
            if key_among(period, buckets, key, n as int) {
                let j = choose|j: int|
                    0 <= j < n && period_key(period, (#[trigger] buckets[j]).date@) == key;
                assert(j < n - 1);
                assert(key_among(period, buckets, key, n - 1));
            }
            if key_among(period, buckets, key, n - 1) {
                let j = choose|j: int|
                    0 <= j < n - 1 && period_key(period, (#[trigger] buckets[j]).date@) == key;
                assert(key_among(period, buckets, key, n as int));
            }
        }
    }
}

/// Where the buckets stand for distinct groups and every entry belongs to
/// one of them, the groups together hold what the entries hold.
proof fn lemma_groups_cover(entries: Seq<Entry>, period: Period, buckets: Seq<PeriodStats>)
    requires
        distinct_groups(period, buckets),
        forall|i: int|
            0 <= i < entries.len() ==> key_among(
                period,
                buckets,
                period_key(period, (#[trigger] entries[i]).day),
                buckets.len() as int,
            ),
    ensures
        groups_total(entries, period, buckets, buckets.len()) == total_of(entries),
    decreases entries.len(),
{
    if entries.len() == 0 {
        assert(entries =~= Seq::<Entry>::empty());
        lemma_groups_total_of_nothing(period, buckets, buckets.len());
    } else {
        let front = entries.drop_last();
        let e = entries.last();
        assert(entries =~= front.push(e));
        assert forall|i: int| 0 <= i < front.len() implies key_among(
            period,
            buckets,
            period_key(period, (#[trigger] front[i]).day),
            buckets.len() as int,
        ) by {
            assert(front[i] == entries[i]);
        }
        lemma_groups_cover(front, period, buckets);
        lemma_groups_total_push(front, e, period, buckets, buckets.len());
        lemma_total_of_push(front, e);
        assert(e == entries[entries.len() - 1]);
    }
}

/// The first `n` buckets of a grouping hold the sum over their groups.
proof fn lemma_buckets_hold_their_groups(
    entries: Seq<Entry>,
    period: Period,
    buckets: Seq<PeriodStats>,
    n: nat,
)
    requires
        n <= buckets.len(),
        forall|j: int| 0 <= j < buckets.len() ==> is_group(entries, period, #[trigger] buckets[j]),
    ensures
        total_of(bucket_entries(buckets).take(n as int)) == groups_total(entries, period, buckets, n),
    decreases n,
{
    let held = bucket_entries(buckets);
    if n == 0 {
        assert(held.take(0) =~= Seq::<Entry>::empty());
    } else {
        lemma_buckets_hold_their_groups(entries, period, buckets, (n - 1) as nat);
        assert(held.take(n as int).drop_last() =~= held.take(n - 1));
        assert(held.take(n as int).last() == held[n - 1]);
        assert(is_group(entries, period, buckets[n - 1]));
    }
}

/// Grouping conserves: the buckets of a grouping sum to what the entries
/// sum to, for every period.
pub proof fn lemma_grouping_conserves(
    entries: Seq<Entry>,
    period: Period,
    buckets: Seq<PeriodStats>,
)
    requires
        grouped(entries, period, buckets),
    ensures
        sum_of(buckets) == total_of(entries),
{
    lemma_groups_are_distinct(entries, period, buckets);
    assert forall|i: int| 0 <= i < entries.len() implies key_among(
        period,
        buckets,
        period_key(period, (#[trigger] entries[i]).day),
        buckets.len() as int,
    ) by {
        let wanted = period_key(period, entries[i].day);
        assert(has_group(buckets, period, wanted));
        let j = choose|j: int|
            0 <= j < buckets.len() && period_key(period, (#[trigger] buckets[j]).date@) == wanted;
        assert(period_key(period, buckets[j].date@) == wanted);
    }
    lemma_groups_cover(entries, period, buckets);
    lemma_buckets_hold_their_groups(entries, period, buckets, buckets.len());
    assert(bucket_entries(buckets).take(buckets.len() as int) =~= bucket_entries(buckets));
}

/// Rolling up conserves: the weekly, monthly or yearly buckets made from
/// daily buckets sum to what the daily buckets sum to.
pub proof fn lemma_rollup_conserves(
    daily: Seq<PeriodStats>,
    period: Period,
    rolled: Seq<PeriodStats>,
)
    requires
        grouped(bucket_entries(daily), period, rolled),
    ensures
        sum_of(rolled) == sum_of(daily),
        sum_of(rolled).commits == sum_of(daily).commits,
{
    lemma_grouping_conserves(bucket_entries(daily), period, rolled);
}

/// One of the first `n` buckets is dated by the given day.
pub open spec fn day_among(buckets: Seq<PeriodStats>, day: int, n: int) -> bool {
    exists|j: int| 0 <= j < n && (#[trigger] buckets[j]).date@ == day
}

/// Sum over the days of those of the first `n` daily buckets whose date
/// has the given key.
pub open spec fn days_total(
    entries: Seq<Entry>,
    daily: Seq<PeriodStats>,
    period: Period,
    key: (int, int),
    n: nat,
) -> Totals
    decreases n,
{
    if n == 0 {
        Totals::zero()
    } else {
        let rest = days_total(entries, daily, period, key, (n - 1) as nat);
        let day = daily[n - 1].date@;
        if period_key(period, day) == key {
            rest.plus(group_total(entries, Period::Daily, (day, 0)))
        } else {
            rest
        }
    }
}

/// What the first `n` daily buckets hold for a key is the sum over their
/// days.
proof fn lemma_days_hold_their_entries(
    entries: Seq<Entry>,
    daily: Seq<PeriodStats>,
    period: Period,
    key: (int, int),
    n: nat,
)
    requires
        n <= daily.len(),
        forall|j: int|
            0 <= j < daily.len() ==> is_group(entries, Period::Daily, #[trigger] daily[j]),
    ensures
        group_total(bucket_entries(daily).take(n as int), period, key) == days_total(
            entries,
            daily,
            period,
            key,
            n,
        ),
    decreases n,
{
    let held = bucket_entries(daily);
    if n == 0 {
        assert(held.take(0) =~= Seq::<Entry>::empty());
    } else {
        lemma_days_hold_their_entries(entries, daily, period, key, (n - 1) as nat);
        assert(held.take(n as int).drop_last() =~= held.take(n - 1));
        assert(held.take(n as int).last() == held[n - 1]);
        assert(is_group(entries, Period::Daily, daily[n - 1]));
    }
}

/// Without entries every day is empty.
proof fn lemma_days_total_of_nothing(
    daily: Seq<PeriodStats>,
    period: Period,
    key: (int, int),
    n: nat,
)
    ensures
        days_total(Seq::<Entry>::empty(), daily, period, key, n) == Totals::zero(),
    decreases n,
{
    if n > 0 {
        lemma_days_total_of_nothing(daily, period, key, (n - 1) as nat);
    }
}

/// One more entry adds its counters to the sum over the days of a key
/// exactly where its day has the key and is among the days.
proof fn lemma_days_total_push(
    entries: Seq<Entry>,
    e: Entry,
    daily: Seq<PeriodStats>,
    period: Period,
    key: (int, int),
    n: nat,
)
    requires
        n <= daily.len(),
        distinct_dates(daily),
    ensures
        days_total(entries.push(e), daily, period, key, n) == if day_among(daily, e.day, n as int)
            && period_key(period, e.day) == key {
            days_total(entries, daily, period, key, n).plus(e.totals)
        } else {
            days_total(entries, daily, period, key, n)
        },
    decreases n,
{
    if n > 0 {
        let day = daily[n - 1].date@;
        lemma_days_total_push(entries, e, daily, period, key, (n - 1) as nat);
        lemma_group_total_push(entries, e, Period::Daily, (day, 0));
        if e.day == day {
            assert(day_among(daily, e.day, n as int));
            if day_among(daily, e.day, n - 1) {
                let j = choose|j: int| 0 <= j < n - 1 && (#[trigger] daily[j]).date@ == e.day;
                assert(daily[j].date@ != daily[n - 1].date@);
            }
        } else {
            if day_among(daily, e.day, n as int) {
                let j = choose|j: int| 0 <= j < n && (#[trigger] daily[j]).date@ == e.day;
                assert(j < n - 1);
                assert(day_among(daily, e.day, n - 1));
            }
            if day_among(daily, e.day, n - 1) {
                let j = choose|j: int| 0 <= j < n - 1 && (#[trigger] daily[j]).date@ == e.day;
                assert(day_among(daily, e.day, n as int));
            }
        }
    }
}

/// Where every entry has its day among the daily buckets, the days of a
/// key together hold what the entries of the key hold.
proof fn lemma_days_cover(
    entries: Seq<Entry>,
    daily: Seq<PeriodStats>,
    period: Period,
    key: (int, int),
)
    requires
        distinct_dates(daily),
        forall|i: int|
            0 <= i < entries.len() ==> day_among(
                daily,
                (#[trigger] entries[i]).day,
                daily.len() as int,
            ),
    ensures
        days_total(entries, daily, period, key, daily.len()) == group_total(entries, period, key),
    decreases entries.len(),
{
    if entries.len() == 0 {
        assert(entries =~= Seq::<Entry>::empty());
        lemma_days_total_of_nothing(daily, period, key, daily.len());
    } else {
        let front = entries.drop_last();
        let e = entries.last();
        assert(entries =~= front.push(e));
        assert forall|i: int| 0 <= i < front.len() implies day_among(
            daily,
            (#[trigger] front[i]).day,
            daily.len() as int,
        ) by {
            assert(front[i] == entries[i]);
        }
        lemma_days_cover(front, daily, period, key);
        lemma_days_total_push(front, e, daily, period, key, daily.len());
        lemma_group_total_push(front, e, period, key);
        assert(e == entries[entries.len() - 1]);
    }
}

/// Every entry of a daily grouping has its day among the buckets.
proof fn lemma_days_are_there(entries: Seq<Entry>, daily: Seq<PeriodStats>)
    requires
        grouped(entries, Period::Daily, daily),
    ensures
        distinct_dates(daily),
        forall|i: int|
            0 <= i < entries.len() ==> day_among(
                daily,
                (#[trigger] entries[i]).day,
                daily.len() as int,
            ),
{
    assert forall|i: int| 0 <= i < entries.len() implies day_among(
        daily,
        (#[trigger] entries[i]).day,
        daily.len() as int,
    ) by {
        let wanted = period_key(Period::Daily, entries[i].day);
        assert(has_group(daily, Period::Daily, wanted));
        let j = choose|j: int|
            0 <= j < daily.len() && period_key(Period::Daily, (#[trigger] daily[j]).date@)
                == wanted;
        assert(daily[j].date@ == entries[i].day);
    }
}

/// Grouping in two steps is grouping in one: the daily buckets of some
/// entries, grouped by week, month or year, are the entries themselves
/// grouped so. Each weekly, monthly or yearly bucket therefore holds the
/// sum over the entries whose day falls into it.
pub proof fn lemma_regrouping(
    entries: Seq<Entry>,
    daily: Seq<PeriodStats>,
    period: Period,
    rolled: Seq<PeriodStats>,
)
    requires
        grouped(entries, Period::Daily, daily),
        grouped(bucket_entries(daily), period, rolled),
    ensures
        grouped(entries, period, rolled),
{
    let days = bucket_entries(daily);
    assert forall|j: int| 0 <= j < rolled.len() implies is_group(
        entries,
        period,
        #[trigger] rolled[j],
    ) by {
        let bucket = rolled[j];
        assert(is_group(days, period, bucket));
        lemma_same_counters(entries, daily, period, period_key(period, bucket.date@));
        lemma_same_earliest(entries, daily, period, bucket.date@);
    }
    assert forall|i: int| 0 <= i < entries.len() implies has_group(
        rolled,
        period,
        period_key(period, (#[trigger] entries[i]).day),
    ) by {
        let at = lemma_day_of(entries, daily, i);
        assert(has_group(rolled, period, period_key(period, days[at].day)));
    }
}

/// The daily buckets of a key hold what the entries of the key hold.
proof fn lemma_same_counters(
    entries: Seq<Entry>,
    daily: Seq<PeriodStats>,
    period: Period,
    key: (int, int),
)
    requires
        grouped(entries, Period::Daily, daily),
    ensures
        group_total(bucket_entries(daily), period, key) == group_total(entries, period, key),
{
    lemma_days_are_there(entries, daily);
    lemma_days_hold_their_entries(entries, daily, period, key, daily.len());
    assert(bucket_entries(daily).take(daily.len() as int) =~= bucket_entries(daily));
    lemma_days_cover(entries, daily, period, key);
}

/// The daily bucket of an entry.
proof fn lemma_day_of(entries: Seq<Entry>, daily: Seq<PeriodStats>, i: int) -> (at: int)
    requires
        grouped(entries, Period::Daily, daily),
        0 <= i < entries.len(),
    ensures
        0 <= at < daily.len(),
        daily[at].date@ == entries[i].day,
        bucket_entries(daily)[at].day == entries[i].day,
{
    let wanted = period_key(Period::Daily, entries[i].day);
    assert(has_group(daily, Period::Daily, wanted));
    choose|j: int|
        0 <= j < daily.len() && period_key(Period::Daily, (#[trigger] daily[j]).date@) == wanted
}

/// An entry of a daily bucket.
proof fn lemma_entry_of(entries: Seq<Entry>, daily: Seq<PeriodStats>, d: int) -> (i: int)
    requires
        grouped(entries, Period::Daily, daily),
        0 <= d < daily.len(),
    ensures
        0 <= i < entries.len(),
        entries[i].day == daily[d].date@,
{
    assert(is_group(entries, Period::Daily, daily[d]));
    choose|i: int| 0 <= i < entries.len() && (#[trigger] entries[i]).day == daily[d].date@
}

/// The earliest day of a group of daily buckets is the earliest day of the
/// group among the entries.
proof fn lemma_same_earliest(
    entries: Seq<Entry>,
    daily: Seq<PeriodStats>,
    period: Period,
    day: int,
)
    requires
        grouped(entries, Period::Daily, daily),
        earliest_of_group(bucket_entries(daily), period, day),
    ensures
        earliest_of_group(entries, period, day),
{
    let days = bucket_entries(daily);
    let d = choose|d: int| 0 <= d < days.len() && (#[trigger] days[d]).day == day;
    let w = lemma_entry_of(entries, daily, d);
    assert(has_day(entries, day)) by {
        assert(entries[w].day == day);
    }
    assert forall|i: int|
        0 <= i < entries.len() && period_key(period, (#[trigger] entries[i]).day) == period_key(
            period,
            day,
        ) implies day <= entries[i].day by {
        let at = lemma_day_of(entries, daily, i);
        assert(period_key(period, days[at].day) == period_key(period, day));
    }
}

/// Putting one more entry anywhere into the sequence adds its counters to
/// its own group and leaves the other groups as they are.
proof fn lemma_group_total_insert(
    entries: Seq<Entry>,
    at: int,
    e: Entry,
    period: Period,
    key: (int, int),
)
    requires
        0 <= at <= entries.len(),
    ensures
        group_total(entries.insert(at, e), period, key) == if period_key(period, e.day) == key {
            group_total(entries, period, key).plus(e.totals)
        } else {
            group_total(entries, period, key)
        },
    decreases entries.len() - at,
{
    let longer = entries.insert(at, e);
    if at == entries.len() {
        assert(longer =~= entries.push(e));
        lemma_group_total_push(entries, e, period, key);
    } else {
        assert(longer.drop_last() =~= entries.drop_last().insert(at, e));
        assert(longer.last() == entries.last());
        lemma_group_total_insert(entries.drop_last(), at, e, period, key);
    }
}

/// A group holds the same whatever the order of the entries.
pub proof fn lemma_group_total_ignores_order(
    a: Seq<Entry>,
    b: Seq<Entry>,
    period: Period,
    key: (int, int),
)
    requires
        a.to_multiset() == b.to_multiset(),
    ensures
        group_total(a, period, key) == group_total(b, period, key),
    decreases a.len(),
{
    vstd::seq_lib::to_multiset_len(a);
    vstd::seq_lib::to_multiset_len(b);
    if a.len() == 0 {
        assert(a =~= b);
    } else {
        let x = a.last();
        let shorter = a.drop_last();
        vstd::seq_lib::to_multiset_contains(a, x);
        vstd::seq_lib::to_multiset_contains(b, x);
        assert(a.contains(x)) by {
            assert(a[a.len() - 1] == x);
        }
        let at = choose|at: int| 0 <= at < b.len() && b[at] == x;
        let others = b.remove(at);
        vstd::seq_lib::to_multiset_remove(a, a.len() - 1);
        vstd::seq_lib::to_multiset_remove(b, at);
        assert(a.remove(a.len() - 1) =~= shorter);
        lemma_group_total_ignores_order(shorter, others, period, key);
        assert(b =~= others.insert(at, x));
        lemma_group_total_insert(others, at, x, period, key);
    }
}

/// Every entry of one order is an entry of the other.
proof fn lemma_same_entries(a: Seq<Entry>, b: Seq<Entry>, i: int) -> (j: int)
    requires
        a.to_multiset() == b.to_multiset(),
        0 <= i < b.len(),
    ensures
        0 <= j < a.len(),
        a[j] == b[i],
{
    vstd::seq_lib::to_multiset_contains(a, b[i]);
    vstd::seq_lib::to_multiset_contains(b, b[i]);
    assert(b.contains(b[i]));
    choose|j: int| 0 <= j < a.len() && a[j] == b[i]
}

/// The earliest day of a group is the same whatever the order of the
/// entries.
proof fn lemma_earliest_ignores_order(a: Seq<Entry>, b: Seq<Entry>, period: Period, day: int)
    requires
        a.to_multiset() == b.to_multiset(),
        earliest_of_group(a, period, day),
    ensures
        earliest_of_group(b, period, day),
{
    let w = choose|w: int| 0 <= w < a.len() && (#[trigger] a[w]).day == day;
    let there = lemma_same_entries(b, a, w);
    assert(has_day(b, day)) by {
        assert(b[there].day == day);
    }
    assert forall|i: int|
        0 <= i < b.len() && period_key(period, (#[trigger] b[i]).day) == period_key(
            period,
            day,
        ) implies day <= b[i].day by {
        let j = lemma_same_entries(a, b, i);
        assert(period_key(period, a[j].day) == period_key(period, day));
    }
}

/// Grouping does not depend on the order of what is grouped: the buckets
/// of some entries are the buckets of the same entries in any other order.
pub proof fn lemma_grouping_ignores_order(
    a: Seq<Entry>,
    b: Seq<Entry>,
    period: Period,
    buckets: Seq<PeriodStats>,
)
    requires
        a.to_multiset() == b.to_multiset(),
        grouped(a, period, buckets),
    ensures
        grouped(b, period, buckets),
{
    assert forall|j: int| 0 <= j < buckets.len() implies is_group(b, period, #[trigger] buckets[j]) by {
        let bucket = buckets[j];
        assert(is_group(a, period, bucket));
        lemma_group_total_ignores_order(a, b, period, period_key(period, bucket.date@));
        lemma_earliest_ignores_order(a, b, period, bucket.date@);
    }
    assert forall|i: int| 0 <= i < b.len() implies has_group(
        buckets,
        period,
        period_key(period, (#[trigger] b[i]).day),
    ) by {
        let j = lemma_same_entries(a, b, i);
        assert(has_group(buckets, period, period_key(period, a[j].day)));
    }
}

/// The buckets are the grouping of the entries; kept under seal so that
/// two groupings can be reasoned about side by side.
#[verifier::opaque]
spec fn sealed(entries: Seq<Entry>, period: Period, buckets: Seq<PeriodStats>) -> bool {
    grouped(entries, period, buckets)
}

/// Every bucket of a grouping is the group of its date.
proof fn lemma_sealed_group(
    entries: Seq<Entry>,
    period: Period,
    buckets: Seq<PeriodStats>,
    j: int,
)
    requires
        sealed(entries, period, buckets),
        0 <= j < buckets.len(),
    ensures
        is_group(entries, period, buckets[j]),
{
    reveal(sealed);
}

/// An entry on the date of a bucket.
proof fn lemma_entry_on_date(
    entries: Seq<Entry>,
    period: Period,
    buckets: Seq<PeriodStats>,
    j: int,
) -> (w: int)
    requires
        sealed(entries, period, buckets),
        0 <= j < buckets.len(),
    ensures
        0 <= w < entries.len(),
        entries[w].day == buckets[j].date@,
{
    lemma_sealed_group(entries, period, buckets, j);
    choose|w: int| 0 <= w < entries.len() && (#[trigger] entries[w]).day == buckets[j].date@
}

/// The bucket for the group of an entry.
proof fn lemma_bucket_for_entry(
    entries: Seq<Entry>,
    period: Period,
    buckets: Seq<PeriodStats>,
    w: int,
) -> (j: int)
    requires
        sealed(entries, period, buckets),
        0 <= w < entries.len(),
    ensures
        0 <= j < buckets.len(),
        period_key(period, buckets[j].date@) == period_key(period, entries[w].day),
{
    reveal(sealed);
    let wanted = period_key(period, entries[w].day);
    assert(has_group(buckets, period, wanted));
    choose|j: int|
        0 <= j < buckets.len() && period_key(period, (#[trigger] buckets[j]).date@) == wanted
}

/// No entry of the group of a bucket is earlier than the bucket.
proof fn lemma_none_earlier(
    entries: Seq<Entry>,
    period: Period,
    buckets: Seq<PeriodStats>,
    j: int,
    v: int,
)
    requires
        sealed(entries, period, buckets),
        0 <= j < buckets.len(),
        0 <= v < entries.len(),
        period_key(period, entries[v].day) == period_key(period, buckets[j].date@),
    ensures
        buckets[j].date@ <= entries[v].day,
{
    lemma_sealed_group(entries, period, buckets, j);
}

/// The buckets of a grouping stand in the order of their dates.
proof fn lemma_in_order(
    entries: Seq<Entry>,
    period: Period,
    buckets: Seq<PeriodStats>,
    a: int,
    b: int,
)
    requires
        sealed(entries, period, buckets),
        0 <= a < b < buckets.len(),
    ensures
        buckets[a].date@ < buckets[b].date@,
{
    reveal(sealed);
}

/// The bucket of the second grouping that has the date of a bucket of the
/// first.
proof fn lemma_twin(
    entries: Seq<Entry>,
    period: Period,
    one: Seq<PeriodStats>,
    other: Seq<PeriodStats>,
    i: int,
) -> (j: int)
    requires
        sealed(entries, period, one),
        sealed(entries, period, other),
        0 <= i < one.len(),
    ensures
        0 <= j < other.len(),
        other[j].date@ == one[i].date@,
{
    let w = lemma_entry_on_date(entries, period, one, i);
    let j = lemma_bucket_for_entry(entries, period, other, w);
    let v = lemma_entry_on_date(entries, period, other, j);
    lemma_none_earlier(entries, period, one, i, v);
    lemma_none_earlier(entries, period, other, j, w);
    j
}

/// Two groupings of the same entries have the same dates at the same
/// places.
proof fn lemma_same_dates(
    entries: Seq<Entry>,
    period: Period,
    one: Seq<PeriodStats>,
    other: Seq<PeriodStats>,
    k: int,
)
    requires
        sealed(entries, period, one),
        sealed(entries, period, other),
        0 <= k < one.len(),
    ensures
        forall|i: int| 0 <= i <= k ==> i < other.len() && (#[trigger] one[i]).date@ == other[i].date@,
    decreases k,
{
    if k > 0 {
        lemma_same_dates(entries, period, one, other, k - 1);
    }
    let j = lemma_twin(entries, period, one, other, k);
    if j < k {
        assert(one[j].date@ == other[j].date@);
        lemma_in_order(entries, period, one, j, k);
    }
    if j > k {
        lemma_in_order(entries, period, other, k, j);
        let m = lemma_twin(entries, period, other, one, k);
        if m < k {
            assert(one[m].date@ == other[m].date@);
            lemma_in_order(entries, period, other, m, k);
        }
        if m > k {
            lemma_in_order(entries, period, one, k, m);
        }
    }
}

/// Two buckets of the same date in two groupings of the same entries hold
/// the same.
proof fn lemma_same_bucket(
    entries: Seq<Entry>,
    period: Period,
    one: Seq<PeriodStats>,
    other: Seq<PeriodStats>,
    i: int,
)
    requires
        sealed(entries, period, one),
        sealed(entries, period, other),
        0 <= i < one.len(),
        i < other.len(),
        one[i].date@ == other[i].date@,
    ensures
        one[i].date == other[i].date,
        one[i].totals() == other[i].totals(),
        one[i].net_lines == other[i].net_lines,
        one[i].label@ == other[i].label@,
{
    lemma_sealed_group(entries, period, one, i);
    lemma_sealed_group(entries, period, other, i);
    crate::date::Date::lemma_same_day(one[i].date, other[i].date);
}

/// Two groupings have the same buckets.
proof fn lemma_same_buckets(
    entries: Seq<Entry>,
    period: Period,
    one: Seq<PeriodStats>,
    other: Seq<PeriodStats>,
)
    requires
        sealed(entries, period, one),
        sealed(entries, period, other),
    ensures
        one.len() == other.len(),
        forall|i: int|
            0 <= i < one.len() ==> {
                &&& (#[trigger] one[i]).date == other[i].date
                &&& one[i].totals() == other[i].totals()
                &&& one[i].net_lines == other[i].net_lines
                &&& one[i].label@ == other[i].label@
            },
{
    if one.len() > 0 {
        lemma_same_dates(entries, period, one, other, one.len() - 1);
        assert(one[one.len() - 1].date@ == other[one.len() - 1].date@);
    }
    if other.len() > 0 {
        lemma_same_dates(entries, period, other, one, other.len() - 1);
        assert(other[other.len() - 1].date@ == one[other.len() - 1].date@);
    }
    assert forall|i: int| 0 <= i < one.len() implies {
        &&& (#[trigger] one[i]).date == other[i].date
        &&& one[i].totals() == other[i].totals()
        &&& one[i].net_lines == other[i].net_lines
        &&& one[i].label@ == other[i].label@
    } by {
        lemma_same_bucket(entries, period, one, other, i);
    }
}

/// Grouping has one result: two groupings of the same entries by the same
/// period have the same buckets, with the same dates, counters, net lines
/// and labels.
pub proof fn lemma_grouping_is_unique(
    entries: Seq<Entry>,
    period: Period,
    one: Seq<PeriodStats>,
    other: Seq<PeriodStats>,
)
    requires
        grouped(entries, period, one),
        grouped(entries, period, other),
    ensures
        one.len() == other.len(),
        forall|i: int|
            0 <= i < one.len() ==> {
                &&& (#[trigger] one[i]).date == other[i].date
                &&& one[i].totals() == other[i].totals()
                &&& one[i].net_lines == other[i].net_lines
                &&& one[i].label@ == other[i].label@
            },
{
    assert(sealed(entries, period, one) && sealed(entries, period, other)) by {
        reveal(sealed);
    }
    lemma_same_buckets(entries, period, one, other);
}

/// The statistics of one history over one range sum to the same totals
/// whatever the period: what is counted by week, month or year is what is
/// counted by day.
pub proof fn lemma_totals_do_not_depend_on_period(
    entries: Seq<Entry>,
    first: Period,
    first_stats: Seq<PeriodStats>,
    second: Period,
    second_stats: Seq<PeriodStats>,
)
    requires
        grouped(entries, first, first_stats),
        grouped(entries, second, second_stats),
    ensures
        sum_of(first_stats) == sum_of(second_stats),
        sum_of(first_stats).commits == sum_of(second_stats).commits,
{
    lemma_grouping_conserves(entries, first, first_stats);
    lemma_grouping_conserves(entries, second, second_stats);
}

} // verus!
