//! Grouping of dated counters into the buckets of a period.
//!
//! The model is a sequence of [`Entry`] values, each a set of counters that
//! belongs to a day. Grouping partitions the entries by the key of their
//! day (the day itself, its ISO week, its month or its year), sums each
//! part, dates it by the earliest day in it, and orders the parts by date.
//! [`grouped`] says when a sequence of buckets is that result.

use crate::cli::args::Period;
use crate::date::{calendar_text, civil_month, civil_year, iso_week, Date};
use crate::stats::laws::lemma_grouping_conserves;
use crate::stats::types::{net_of, PeriodStats, Totals};
use crate::text::{padded2, push_padded2, signed_decimal, signed_decimal_string};
use vstd::prelude::*;

verus! {

/// Counters that belong to a day.
pub struct Entry {
    /// Day number of the day.
    pub day: int,
    /// What is counted for it.
    pub totals: Totals,
}

/// The key under which a day is grouped: the day itself, its ISO week-year
/// and week, its year and month, or its year.
pub open spec fn period_key(period: Period, day: int) -> (int, int) {
    match period {
        Period::Daily => (day, 0),
        Period::Weekly => iso_week(day),
        Period::Monthly => (civil_year(day), civil_month(day)),
        Period::Yearly => (civil_year(day), 0),
    }
}

/// The label of the group with the given key: the date for a day,
/// `YYYY-Www` for a week, `YYYY-MM` for a month, `YYYY` for a year.
pub open spec fn key_label(period: Period, key: (int, int)) -> Seq<char> {
    match period {
        Period::Daily => calendar_text(key.0),
        Period::Weekly => signed_decimal(key.0) + "-W"@ + padded2(key.1 as nat),
        Period::Monthly => signed_decimal(key.0) + "-"@ + padded2(key.1 as nat),
        Period::Yearly => signed_decimal(key.0),
    }
}

/// Sum of the entries whose day has the given key.
pub open spec fn group_total(entries: Seq<Entry>, period: Period, key: (int, int)) -> Totals
    decreases entries.len(),
{
    if entries.len() == 0 {
        Totals::zero()
    } else {
        let rest = group_total(entries.drop_last(), period, key);
        if period_key(period, entries.last().day) == key {
            rest.plus(entries.last().totals)
        } else {
            rest
        }
    }
}

/// Sum of all entries.
pub open spec fn total_of(entries: Seq<Entry>) -> Totals
    decreases entries.len(),
{
    if entries.len() == 0 {
        Totals::zero()
    } else {
        total_of(entries.drop_last()).plus(entries.last().totals)
    }
}

/// No entry holds a negative counter.
pub open spec fn all_non_negative(entries: Seq<Entry>) -> bool {
    forall|i: int| 0 <= i < entries.len() ==> (#[trigger] entries[i]).totals.non_negative()
}

/// Some entry belongs to the given day.
pub open spec fn has_day(entries: Seq<Entry>, day: int) -> bool {
    exists|i: int| 0 <= i < entries.len() && (#[trigger] entries[i]).day == day
}

/// The given day has an entry, and no entry of its group is earlier.
pub open spec fn earliest_of_group(entries: Seq<Entry>, period: Period, day: int) -> bool {
    &&& has_day(entries, day)
    &&& forall|i: int|
        0 <= i < entries.len() && period_key(period, (#[trigger] entries[i]).day) == period_key(
            period,
            day,
        ) ==> day <= entries[i].day
}

/// The bucket is the group of its own date: it holds the sum of the group,
/// carries the group's label, and is dated by the group's earliest day.
pub open spec fn is_group(entries: Seq<Entry>, period: Period, bucket: PeriodStats) -> bool {
    let key = period_key(period, bucket.date@);
    &&& bucket.totals() == group_total(entries, period, key)
    &&& bucket.net_consistent()
    &&& bucket.label@ == key_label(period, key)
    &&& earliest_of_group(entries, period, bucket.date@)
}

/// Some bucket stands for the group with the given key.
pub open spec fn has_group(buckets: Seq<PeriodStats>, period: Period, key: (int, int)) -> bool {
    exists|j: int|
        0 <= j < buckets.len() && period_key(period, (#[trigger] buckets[j]).date@) == key
}

/// The buckets are in strictly ascending order of date.
pub open spec fn ascending(buckets: Seq<PeriodStats>) -> bool {
    forall|i: int, j: int|
        0 <= i < j < buckets.len() ==> (#[trigger] buckets[i]).date@ < (#[trigger] buckets[j]).date@
}

/// `buckets` is the grouping of `entries` by `period`: one bucket for each
/// group that has an entry, none besides, in ascending order of date.
pub open spec fn grouped(entries: Seq<Entry>, period: Period, buckets: Seq<PeriodStats>) -> bool {
    &&& ascending(buckets)
    &&& forall|j: int| 0 <= j < buckets.len() ==> is_group(entries, period, #[trigger] buckets[j])
    &&& forall|i: int|
        0 <= i < entries.len() ==> has_group(
            buckets,
            period,
            period_key(period, (#[trigger] entries[i]).day),
        )
}

/// The entries that a sequence of buckets stands for: one for each bucket,
/// on its date, with its counters.
pub open spec fn bucket_entries(buckets: Seq<PeriodStats>) -> Seq<Entry> {
    Seq::new(buckets.len(), |i: int| Entry { day: buckets[i].date@, totals: buckets[i].totals() })
}

/// Sum of the counters of a sequence of buckets.
pub open spec fn sum_of(buckets: Seq<PeriodStats>) -> Totals {
    total_of(bucket_entries(buckets))
}

/// A group never holds more than all entries together.
pub proof fn lemma_group_within_total(entries: Seq<Entry>, period: Period, key: (int, int))
    requires
        all_non_negative(entries),
    ensures
        group_total(entries, period, key).non_negative(),
        total_of(entries).non_negative(),
        group_total(entries, period, key).at_most(total_of(entries)),
    decreases entries.len(),
{
    if entries.len() > 0 {
        let front = entries.drop_last();
        assert forall|i: int| 0 <= i < front.len() implies (#[trigger] front[i]).totals.non_negative() by {
            assert(front[i] == entries[i]);
        }
        assert(entries.last() == entries[entries.len() - 1]);
        lemma_group_within_total(front, period, key);
    }
}

/// The sum over a beginning of the entries is at most the sum over all.
pub proof fn lemma_total_of_prefix(entries: Seq<Entry>, k: int)
    requires
        all_non_negative(entries),
        0 <= k <= entries.len(),
    ensures
        total_of(entries.take(k)).non_negative(),
        total_of(entries.take(k)).at_most(total_of(entries)),
        all_non_negative(entries.take(k)),
    decreases entries.len() - k,
{
    let prefix = entries.take(k);
    assert forall|i: int| 0 <= i < prefix.len() implies (#[trigger] prefix[i]).totals.non_negative() by {
        assert(prefix[i] == entries[i]);
    }
    lemma_group_within_total(prefix, Period::Daily, (0, 0));
    if k == entries.len() {
        assert(entries.take(k) =~= entries);
    } else {
        lemma_total_of_prefix(entries, k + 1);
        let longer = entries.take(k + 1);
        assert(longer.drop_last() =~= prefix);
        assert(longer.last() == entries[k]);
    }
}

/// Appending one entry adds its counters to the sum.
pub proof fn lemma_total_of_push(entries: Seq<Entry>, e: Entry)
    ensures
        total_of(entries.push(e)) == total_of(entries).plus(e.totals),
{
    assert(entries.push(e).drop_last() =~= entries);
}

/// Appending one entry adds its counters to its own group and leaves the
/// other groups as they are.
pub proof fn lemma_group_total_push(entries: Seq<Entry>, e: Entry, period: Period, key: (int, int))
    ensures
        group_total(entries.push(e), period, key) == if period_key(period, e.day) == key {
            group_total(entries, period, key).plus(e.totals)
        } else {
            group_total(entries, period, key)
        },
{
    assert(entries.push(e).drop_last() =~= entries);
}

/// Putting one more entry anywhere into the sequence adds its counters to
/// the sum.
pub proof fn lemma_total_of_insert(entries: Seq<Entry>, at: int, e: Entry)
    requires
        0 <= at <= entries.len(),
    ensures
        total_of(entries.insert(at, e)) == total_of(entries).plus(e.totals),
    decreases entries.len() - at,
{
    let longer = entries.insert(at, e);
    if at == entries.len() {
        assert(longer =~= entries.push(e));
        lemma_total_of_push(entries, e);
    } else {
        assert(longer.drop_last() =~= entries.drop_last().insert(at, e));
        assert(longer.last() == entries.last());
        lemma_total_of_insert(entries.drop_last(), at, e);
    }
}

/// A group without entries sums to zero.
pub proof fn lemma_group_total_absent(entries: Seq<Entry>, period: Period, key: (int, int))
    requires
        forall|i: int|
            0 <= i < entries.len() ==> period_key(period, (#[trigger] entries[i]).day) != key,
    ensures
        group_total(entries, period, key) == Totals::zero(),
    decreases entries.len(),
{
    if entries.len() > 0 {
        let front = entries.drop_last();
        assert forall|i: int| 0 <= i < front.len() implies period_key(
            period,
            (#[trigger] front[i]).day,
        ) != key by {
            assert(front[i] == entries[i]);
        }
        assert(entries.last() == entries[entries.len() - 1]);
        lemma_group_total_absent(front, period, key);
    }
}

/// A key as mathematical integers.
pub open spec fn key_of(key: (i32, u32)) -> (int, int) {
    (key.0 as int, key.1 as int)
}

/// The key of a date under a period.
pub fn date_key(period: Period, date: &Date) -> (key: (i32, u32))
    ensures
        key_of(key) == period_key(period, date@),
{
    match period {
        Period::Daily => (date.day_number(), 0),
        Period::Weekly => date.iso_week(),
        Period::Monthly => (date.year(), date.month()),
        Period::Yearly => (date.year(), 0),
    }
}

/// The label of the group that `date` belongs to.
pub fn date_label(period: Period, date: &Date) -> (label: String)
    ensures
        label@ == key_label(period, period_key(period, date@)),
{
    match period {
        Period::Daily => date.to_string(),
        Period::Weekly => {
            let (year, week) = date.iso_week();
            let mut label = signed_decimal_string(year as i64);
            label.append("-W");
            push_padded2(&mut label, week);
            label
        },
        Period::Monthly => {
            let year = date.year();
            let month = date.month();
            let mut label = signed_decimal_string(year as i64);
            label.append("-");
            push_padded2(&mut label, month);
            label
        },
        Period::Yearly => signed_decimal_string(date.year() as i64),
    }
}

/// Groups under construction: one bucket for each key met so far, in the
/// order in which the keys were first met.
pub(crate) struct Groups {
    pub(crate) period: Period,
    pub(crate) keys: Vec<(i32, u32)>,
    pub(crate) buckets: Vec<PeriodStats>,
}

impl Groups {
    /// The buckets are the groups of the entries `seen`, not yet ordered.
    pub(crate) closed spec fn holds(self, seen: Seq<Entry>) -> bool {
        &&& self.keys@.len() == self.buckets@.len()
        &&& all_non_negative(seen)
        &&& total_of(seen).within_limits()
        &&& forall|j: int|
            0 <= j < self.buckets@.len() ==> key_of(#[trigger] self.keys@[j]) == period_key(
                self.period,
                self.buckets@[j].date@,
            )
        &&& forall|a: int, b: int|
            0 <= a < b < self.keys@.len() ==> key_of(#[trigger] self.keys@[a]) != key_of(
                #[trigger] self.keys@[b],
            )
        &&& forall|j: int|
            0 <= j < self.buckets@.len() ==> is_group(seen, self.period, #[trigger] self.buckets@[j])
        &&& forall|i: int|
            0 <= i < seen.len() ==> has_group(
                self.buckets@,
                self.period,
                period_key(self.period, (#[trigger] seen[i]).day),
            )
    }

    pub(crate) fn new(period: Period) -> (r: Groups)
        ensures
            r.period == period,
            r.holds(Seq::<Entry>::empty()),
    {
        Groups { period, keys: Vec::new(), buckets: Vec::new() }
    }

    /// Position of `key` among the keys met so far.
    fn find(&self, key: (i32, u32)) -> (r: Option<usize>)
        ensures
            r matches Some(j) ==> j < self.keys@.len() && self.keys@[j as int] == key,
            r is None ==> forall|j: int| 0 <= j < self.keys@.len() ==> self.keys@[j] != key,
    {
        let mut j: usize = self.keys.len();
        while j > 0
            invariant
                j <= self.keys@.len(),
                forall|k: int| j <= k < self.keys@.len() ==> self.keys@[k] != key,
            decreases j,
        {
            j = j - 1;
            let candidate = self.keys[j];
            if candidate.0 == key.0 && candidate.1 == key.1 {
                return Some(j);
            }
        }
        None
    }

    /// Counts one more entry: the counters go to the group of `date`, which
    /// is made if the key is new and moved to `date` if that is earlier.
    pub(crate) fn absorb(
        &mut self,
        date: Date,
        commits: u32,
        additions: u64,
        deletions: u64,
        files_changed: u32,
        Ghost(seen): Ghost<Seq<Entry>>,
    )
        requires
            old(self).holds(seen),
            total_of(seen.push(entry_of(date@, commits, additions, deletions, files_changed)))
                .within_limits(),
        ensures
            final(self).period == old(self).period,
            final(self).holds(seen.push(entry_of(date@, commits, additions, deletions, files_changed))),
    {
        let ghost e = entry_of(date@, commits, additions, deletions, files_changed);
        let ghost after = seen.push(e);
        let ghost period = self.period;
        let ghost before = *self;
        let key = date_key(self.period, &date);
        proof {
            assert forall|i: int| 0 <= i < after.len() implies (#[trigger] after[i]).totals.non_negative() by {
                if i < seen.len() {
                    assert(after[i] == seen[i]);
                }
            }
            lemma_group_within_total(after, period, key_of(key));
            lemma_group_total_push(seen, e, period, key_of(key));
        }
        match self.find(key) {
            Some(j) => {
                let held = &self.buckets[j];
                let earlier = date.is_before(&held.date);
                let anchor = if earlier {
                    date
                } else {
                    held.date
                };
                let merged_additions = held.additions + additions;
                let merged_deletions = held.deletions + deletions;
                let merged = PeriodStats {
                    label: held.label.clone(),
                    date: anchor,
                    commits: held.commits + commits,
                    additions: merged_additions,
                    deletions: merged_deletions,
                    net_lines: net_of(merged_additions, merged_deletions),
                    files_changed: held.files_changed + files_changed,
                };
                self.buckets.set(j, merged);
                proof {
                    let old_bucket = before.buckets@[j as int];
                    assert(is_group(seen, period, old_bucket));
                    assert(period_key(period, merged.date@) == key_of(key));
                    lemma_total_of_push(seen, e);
                    // the group that grew
                    assert(has_day(after, merged.date@)) by {
                        if earlier {
                            assert(after[seen.len() as int].day == merged.date@);
                        } else {
                            let w = choose|i: int|
                                0 <= i < seen.len() && (#[trigger] seen[i]).day == old_bucket.date@;
                            assert(after[w] == seen[w]);
                        }
                    }
                    assert forall|i: int|
                        0 <= i < after.len() && period_key(period, (#[trigger] after[i]).day)
                            == period_key(period, merged.date@) implies merged.date@
                        <= after[i].day by {
                        if i < seen.len() {
                            assert(after[i] == seen[i]);
                        }
                    }
                    assert(is_group(after, period, merged));
                    // the groups that did not
                    assert forall|k: int| 0 <= k < self.buckets@.len() implies is_group(
                        after,
                        period,
                        #[trigger] self.buckets@[k],
                    ) by {
                        if k != j {
                            let other = before.buckets@[k];
                            assert(self.buckets@[k] == other);
                            assert(is_group(seen, period, other));
                            assert(key_of(before.keys@[k]) != key_of(before.keys@[j as int]));
                            lemma_group_total_push(seen, e, period, period_key(period, other.date@));
                            let w = choose|i: int|
                                0 <= i < seen.len() && (#[trigger] seen[i]).day == other.date@;
                            assert(after[w] == seen[w]);
                            assert forall|i: int|
                                0 <= i < after.len() && period_key(
                                    period,
                                    (#[trigger] after[i]).day,
                                ) == period_key(period, other.date@) implies other.date@
                                <= after[i].day by {
                                if i < seen.len() {
                                    assert(after[i] == seen[i]);
                                }
                            }
                        }
                    }
                    assert forall|k: int| 0 <= k < self.buckets@.len() implies key_of(
                        #[trigger] self.keys@[k],
                    ) == period_key(period, self.buckets@[k].date@) by {
                        if k != j {
                            assert(self.buckets@[k] == before.buckets@[k]);
                        }
                    }
                    assert forall|i: int| 0 <= i < after.len() implies has_group(
                        self.buckets@,
                        period,
                        period_key(period, (#[trigger] after[i]).day),
                    ) by {
                        if i < seen.len() {
                            assert(after[i] == seen[i]);
                            let wanted = period_key(period, seen[i].day);
                            assert(has_group(before.buckets@, period, wanted));
                            let g = choose|g: int|
                                0 <= g < before.buckets@.len() && period_key(
                                    period,
                                    (#[trigger] before.buckets@[g]).date@,
                                ) == wanted;
                            assert(key_of(before.keys@[g]) == wanted);
                            assert(period_key(period, self.buckets@[g].date@) == wanted);
                        } else {
                            assert(period_key(period, self.buckets@[j as int].date@) == key_of(key));
                        }
                    }
                }
            },
            None => {
                proof {
                    assert forall|i: int| 0 <= i < seen.len() implies period_key(
                        period,
                        (#[trigger] seen[i]).day,
                    ) != key_of(key) by {
                        if period_key(period, seen[i].day) == key_of(key) {
                            assert(has_group(before.buckets@, period, key_of(key)));
                            let g = choose|g: int|
                                0 <= g < before.buckets@.len() && period_key(
                                    period,
                                    (#[trigger] before.buckets@[g]).date@,
                                ) == key_of(key);
                            assert(key_of(before.keys@[g]) == key_of(key));
                            assert(before.keys@[g] == key);
                        }
                    }
                    lemma_group_total_absent(seen, period, key_of(key));
                }
                let fresh = PeriodStats {
                    label: date_label(self.period, &date),
                    date,
                    commits,
                    additions,
                    deletions,
                    net_lines: net_of(additions, deletions),
                    files_changed,
                };
                self.keys.push(key);
                self.buckets.push(fresh);
                proof {
                    let n = before.buckets@.len() as int;
                    assert(self.buckets@[n] == fresh);
                    lemma_total_of_push(seen, e);
                    assert(has_day(after, fresh.date@)) by {
                        assert(after[seen.len() as int].day == fresh.date@);
                    }
                    assert forall|i: int|
                        0 <= i < after.len() && period_key(period, (#[trigger] after[i]).day)
                            == period_key(period, fresh.date@) implies fresh.date@
                        <= after[i].day by {
                        if i < seen.len() {
                            assert(after[i] == seen[i]);
                        }
                    }
                    assert(is_group(after, period, fresh));
                    assert forall|k: int| 0 <= k < self.buckets@.len() implies is_group(
                        after,
                        period,
                        #[trigger] self.buckets@[k],
                    ) by {
                        if k < n {
                            let other = before.buckets@[k];
                            assert(self.buckets@[k] == other);
                            assert(is_group(seen, period, other));
                            assert(key_of(before.keys@[k]) != key_of(key));
                            lemma_group_total_push(seen, e, period, period_key(period, other.date@));
                            let w = choose|i: int|
                                0 <= i < seen.len() && (#[trigger] seen[i]).day == other.date@;
                            assert(after[w] == seen[w]);
                            assert forall|i: int|
                                0 <= i < after.len() && period_key(
                                    period,
                                    (#[trigger] after[i]).day,
                                ) == period_key(period, other.date@) implies other.date@
                                <= after[i].day by {
                                if i < seen.len() {
                                    assert(after[i] == seen[i]);
                                }
                            }
                        }
                    }
                    assert forall|k: int| 0 <= k < self.buckets@.len() implies key_of(
                        #[trigger] self.keys@[k],
                    ) == period_key(period, self.buckets@[k].date@) by {
                        if k < n {
                            assert(self.buckets@[k] == before.buckets@[k]);
                            assert(self.keys@[k] == before.keys@[k]);
                        }
                    }
                    assert forall|a: int, b: int| 0 <= a < b < self.keys@.len() implies key_of(
                        #[trigger] self.keys@[a],
                    ) != key_of(#[trigger] self.keys@[b]) by {
                        assert(self.keys@[a] == before.keys@[a]);
                        if b < n {
                            assert(self.keys@[b] == before.keys@[b]);
                        }
                    }
                    assert forall|i: int| 0 <= i < after.len() implies has_group(
                        self.buckets@,
                        period,
                        period_key(period, (#[trigger] after[i]).day),
                    ) by {
                        if i < seen.len() {
                            assert(after[i] == seen[i]);
                            let wanted = period_key(period, seen[i].day);
                            assert(has_group(before.buckets@, period, wanted));
                            let g = choose|g: int|
                                0 <= g < before.buckets@.len() && period_key(
                                    period,
                                    (#[trigger] before.buckets@[g]).date@,
                                ) == wanted;
                            assert(self.buckets@[g] == before.buckets@[g]);
                        } else {
                            assert(period_key(period, self.buckets@[n].date@) == key_of(key));
                        }
                    }
                }
            },
        }
    }
}

/// No two buckets have the same date.
pub open spec fn distinct_dates(buckets: Seq<PeriodStats>) -> bool {
    forall|a: int, b: int|
        0 <= a < b < buckets.len() ==> (#[trigger] buckets[a]).date@ != (#[trigger] buckets[b]).date@
}

/// Orders buckets of distinct dates by date: the result holds the same
/// buckets, the earliest first.
pub fn sort_by_date(buckets: Vec<PeriodStats>) -> (out: Vec<PeriodStats>)
    requires
        distinct_dates(buckets@),
    ensures
        ascending(out@),
        out@.len() == buckets@.len(),
        forall|j: int| 0 <= j < out@.len() ==> buckets@.contains(#[trigger] out@[j]),
        forall|i: int| 0 <= i < buckets@.len() ==> out@.contains(#[trigger] buckets@[i]),
        sum_of(out@) == sum_of(buckets@),
{
    let ghost given = buckets@;
    let mut rest = buckets;
    let mut out: Vec<PeriodStats> = Vec::new();
    // for each bucket of `out`, where it stood in `given`
    let ghost mut source: Seq<int> = Seq::empty();
    while rest.len() > 0
        invariant
            distinct_dates(given),
            rest@ == given.take(rest@.len() as int),
            rest@.len() <= given.len(),
            out@.len() + rest@.len() == given.len(),
            ascending(out@),
            source.len() == out@.len(),
            forall|j: int|
                0 <= j < out@.len() ==> rest@.len() <= (#[trigger] source[j]) < given.len()
                    && given[source[j]] == out@[j],
            forall|i: int|
                rest@.len() <= i < given.len() ==> out@.contains(#[trigger] given[i]),
            sum_of(out@).plus(sum_of(rest@)) == sum_of(given),
        decreases rest@.len(),
    {
        let ghost before = rest@;
        let ghost sorted = out@;
        let ghost m = rest@.len() - 1;
        let bucket = rest.pop().unwrap();
        assert(bucket == given[m]);
        assert(rest@ =~= given.take(m));
        let mut at: usize = out.len();
        while at > 0 && bucket.date.is_before(&out[at - 1].date)
            invariant
                at <= out@.len(),
                forall|k: int| at <= k < out@.len() ==> bucket.date@ < (#[trigger] out@[k]).date@,
            decreases at,
        {
            at = at - 1;
        }
        out.insert(at, bucket);
        proof {
            source = source.insert(at as int, m);
            let entry = Entry { day: bucket.date@, totals: bucket.totals() };
            assert(bucket_entries(out@) =~= bucket_entries(sorted).insert(at as int, entry));
            lemma_total_of_insert(bucket_entries(sorted), at as int, entry);
            assert(bucket_entries(before).drop_last() =~= bucket_entries(rest@));
            assert(bucket_entries(before).last() == entry);
            assert forall|i: int, j: int| 0 <= i < j < out@.len() implies (#[trigger] out@[i]).date@ < (
            #[trigger] out@[j]).date@ by {
                if j == at {
                    // out@[i] stood before the place of the new bucket
                    assert(out@[i] == sorted[i]);
                    assert(!(bucket.date@ < sorted[at - 1].date@));
                    assert(sorted[i].date@ <= sorted[at - 1].date@);
                    assert(given[source[i]] == out@[i]);
                    assert(source[i] > m);
                } else if i == at {
                    assert(out@[j] == sorted[j - 1]);
                } else {
                    let si = if i < at {
                        i
                    } else {
                        i - 1
                    };
                    let sj = if j < at {
                        j
                    } else {
                        j - 1
                    };
                    assert(out@[i] == sorted[si]);
                    assert(out@[j] == sorted[sj]);
                }
            }
            assert forall|i: int| rest@.len() <= i < given.len() implies out@.contains(
                #[trigger] given[i],
            ) by {
                if i == m {
                    assert(out@[at as int] == given[i]);
                } else {
                    let w = choose|w: int| 0 <= w < sorted.len() && sorted[w] == given[i];
                    let moved = if w < at {
                        w
                    } else {
                        w + 1
                    };
                    assert(out@[moved] == given[i]);
                }
            }
        }
    }
    proof {
        assert(rest@ =~= Seq::<PeriodStats>::empty());
        assert(bucket_entries(rest@) =~= Seq::<Entry>::empty());
        assert forall|j: int| 0 <= j < out@.len() implies given.contains(#[trigger] out@[j]) by {
            assert(given[source[j]] == out@[j]);
        }
    }
    out
}

impl Groups {
    /// The groups in ascending order of date.
    pub(crate) fn finish(self, Ghost(seen): Ghost<Seq<Entry>>) -> (out: Vec<PeriodStats>)
        requires
            self.holds(seen),
        ensures
            grouped(seen, self.period, out@),
            sum_of(out@) == total_of(seen),
    {
        let ghost period = self.period;
        let ghost held = self.buckets@;
        proof {
            assert forall|a: int, b: int| 0 <= a < b < held.len() implies (#[trigger] held[a]).date@ != (
            #[trigger] held[b]).date@ by {
                assert(key_of(self.keys@[a]) != key_of(self.keys@[b]));
            }
        }
        let out = sort_by_date(self.buckets);
        proof {
            assert forall|j: int| 0 <= j < out@.len() implies is_group(
                seen,
                period,
                #[trigger] out@[j],
            ) by {
                assert(held.contains(out@[j]));
                let w = choose|w: int| 0 <= w < held.len() && held[w] == out@[j];
                assert(is_group(seen, period, held[w]));
            }
            assert forall|i: int| 0 <= i < seen.len() implies has_group(
                out@,
                period,
                period_key(period, (#[trigger] seen[i]).day),
            ) by {
                let wanted = period_key(period, seen[i].day);
                assert(has_group(held, period, wanted));
                let g = choose|g: int|
                    0 <= g < held.len() && period_key(period, (#[trigger] held[g]).date@) == wanted;
                assert(out@.contains(held[g]));
                let w = choose|w: int| 0 <= w < out@.len() && out@[w] == held[g];
                assert(period_key(period, out@[w].date@) == wanted);
            }
            lemma_grouping_conserves(seen, period, out@);
        }
        out
    }
}

/// The entry of the given day with the given counters.
pub open spec fn entry_of(
    day: int,
    commits: u32,
    additions: u64,
    deletions: u64,
    files_changed: u32,
) -> Entry {
    Entry {
        day,
        totals: Totals {
            commits: commits as int,
            additions: additions as int,
            deletions: deletions as int,
            files_changed: files_changed as int,
        },
    }
}

} // verus!
