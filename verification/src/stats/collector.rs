//! Statistics of a commit history over the periods of a date range.
//!
//! Every commit counts on the UTC day of its timestamp. Merge commits are
//! counted like any other: the caller leaves them out of `commits` if they
//! are not wanted.

use crate::cli::args::Period;
use crate::date::{day_in_range, Date, DateRange};
use crate::git::diff::{extension_allowed, FileChange};
use crate::git::CommitInfo;
use crate::stats::grouping::{
    all_non_negative, bucket_entries, entry_of, group_total, grouped, has_group, is_group,
    lemma_total_of_prefix, lemma_total_of_push, period_key, sum_of, total_of, Entry, Groups,
};
use crate::stats::laws::lemma_regrouping;
use crate::stats::types::{AnalysisResult, PeriodStats, Totals};
use vstd::prelude::*;

verus! {

/// An optional allow-list of extensions, as a sequence.
pub open spec fn allow_list(extensions: Option<&[String]>) -> Option<Seq<String>> {
    match extensions {
        Some(list) => Some(list@),
        None => None,
    }
}

/// What one file counts for.
pub open spec fn file_totals(file: FileChange) -> Totals {
    Totals {
        commits: 0,
        additions: file.additions as int,
        deletions: file.deletions as int,
        files_changed: 1,
    }
}

/// Sum over the files that the allow-list admits: their added and removed
/// lines, and how many they are.
pub open spec fn filtered_files(files: Seq<FileChange>, allowed: Seq<String>) -> Totals
    decreases files.len(),
{
    if files.len() == 0 {
        Totals::zero()
    } else {
        let rest = filtered_files(files.drop_last(), allowed);
        if extension_allowed(files.last().path@, allowed) {
            rest.plus(file_totals(files.last()))
        } else {
            rest
        }
    }
}

/// What one commit counts for: one commit, and either its own diff totals
/// or, under an allow-list, the sum over its admitted files.
pub open spec fn commit_totals(commit: CommitInfo, allowed: Option<Seq<String>>) -> Totals {
    match allowed {
        Some(list) => {
            let files = filtered_files(commit.diff.files@, list);
            Totals {
                commits: 1,
                additions: files.additions,
                deletions: files.deletions,
                files_changed: files.files_changed,
            }
        },
        None => Totals {
            commits: 1,
            additions: commit.diff.additions as int,
            deletions: commit.diff.deletions as int,
            files_changed: commit.diff.files_changed as int,
        },
    }
}

/// One entry for each commit, on its day.
pub open spec fn commit_entries(commits: Seq<CommitInfo>, allowed: Option<Seq<String>>) -> Seq<
    Entry,
> {
    Seq::new(
        commits.len(),
        |i: int| Entry { day: commits[i].day(), totals: commit_totals(commits[i], allowed) },
    )
}

/// One entry without counts for each day of the range.
pub open spec fn range_entries(range: DateRange) -> Seq<Entry> {
    Seq::new(range.spec_len(), |i: int| Entry { day: range.from@ + i, totals: Totals::zero() })
}

/// What daily statistics are made of: the commits, and every day of the
/// range whether or not it has one.
pub open spec fn history_entries(
    commits: Seq<CommitInfo>,
    allowed: Option<Seq<String>>,
    range: DateRange,
) -> Seq<Entry> {
    commit_entries(commits, allowed) + range_entries(range)
}

/// The history can be counted: every commit falls on a day that can be
/// represented, and the sum over all commits is within the capacity of a
/// bucket.
pub open spec fn countable(commits: Seq<CommitInfo>, allowed: Option<Seq<String>>) -> bool {
    &&& forall|i: int| 0 <= i < commits.len() ==> (#[trigger] commits[i]).dated()
    &&& total_of(commit_entries(commits, allowed)).within_limits()
}

/// The sum over the admitted files only grows along the list.
pub proof fn lemma_filtered_prefix(files: Seq<FileChange>, allowed: Seq<String>, k: int)
    requires
        0 <= k <= files.len(),
    ensures
        filtered_files(files.take(k), allowed).non_negative(),
        filtered_files(files.take(k), allowed).at_most(filtered_files(files, allowed)),
    decreases files.len() - k,
{
    lemma_filtered_non_negative(files.take(k), allowed);
    if k == files.len() {
        assert(files.take(k) =~= files);
    } else {
        lemma_filtered_prefix(files, allowed, k + 1);
        assert(files.take(k + 1).drop_last() =~= files.take(k));
    }
}

/// The sum over the admitted files has no negative counter.
pub proof fn lemma_filtered_non_negative(files: Seq<FileChange>, allowed: Seq<String>)
    ensures
        filtered_files(files, allowed).non_negative(),
    decreases files.len(),
{
    if files.len() > 0 {
        lemma_filtered_non_negative(files.drop_last(), allowed);
    }
}

/// What a commit counts for has no negative counter.
pub proof fn lemma_commit_entries_non_negative(
    commits: Seq<CommitInfo>,
    allowed: Option<Seq<String>>,
)
    ensures
        all_non_negative(commit_entries(commits, allowed)),
{
    let entries = commit_entries(commits, allowed);
    assert forall|i: int| 0 <= i < entries.len() implies (#[trigger] entries[i]).totals.non_negative() by {
        if let Some(list) = allowed {
            lemma_filtered_non_negative(commits[i].diff.files@, list);
        }
    }
}

/// What a commit counts for under the filter: added lines, removed lines
/// and files. `None` exactly where that is beyond the capacity of a bucket.
pub fn effective_changes(commit: &CommitInfo, extensions: Option<&[String]>) -> (r: Option<
    (u64, u64, u32),
>)
    ensures
        r is Some <==> commit_totals(*commit, allow_list(extensions)).within_limits(),
        r matches Some(c) ==> entry_of(commit.day(), 1, c.0, c.1, c.2).totals == commit_totals(
            *commit,
            allow_list(extensions),
        ),
{
    match extensions {
        None => {
            if commit.diff.additions <= i64::MAX as u64 && commit.diff.deletions <= i64::MAX as u64 {
                Some((commit.diff.additions, commit.diff.deletions, commit.diff.files_changed))
            } else {
                None
            }
        },
        Some(list) => {
            let ghost files = commit.diff.files@;
            let mut additions: u64 = 0;
            let mut deletions: u64 = 0;
            let mut count: u32 = 0;
            let mut i: usize = 0;
            while i < commit.diff.files.len()
                invariant
                    i <= files.len(),
                    files == commit.diff.files@,
                    allow_list(extensions) == Some(list@),
                    filtered_files(files.take(i as int), list@) == (Totals {
                        commits: 0,
                        additions: additions as int,
                        deletions: deletions as int,
                        files_changed: count as int,
                    }),
                    additions <= i64::MAX,
                    deletions <= i64::MAX,
                decreases files.len() - i,
            {
                let file = &commit.diff.files[i];
                proof {
                    assert(files.take(i + 1).drop_last() =~= files.take(i as int));
                    assert(files.take(i + 1).last() == *file);
                    lemma_filtered_prefix(files, list@, i + 1);
                }
                if file.matches_extensions(list) {
                    if file.additions > i64::MAX as u64 - additions || file.deletions > i64::MAX as u64
                        - deletions || count == u32::MAX {
                        return None;
                    }
                    additions = additions + file.additions;
                    deletions = deletions + file.deletions;
                    count = count + 1;
                }
                i = i + 1;
            }
            assert(files.take(i as int) =~= files);
            Some((additions, deletions, count))
        },
    }
}

/// Whether the history can be counted (see [`countable`]).
pub fn is_countable(commits: &Vec<CommitInfo>, extensions: Option<&[String]>) -> (r: bool)
    ensures
        r == countable(commits@, allow_list(extensions)),
{
    let ghost allowed = allow_list(extensions);
    let ghost entries = commit_entries(commits@, allowed);
    let mut count: u32 = 0;
    let mut additions: u64 = 0;
    let mut deletions: u64 = 0;
    let mut files: u32 = 0;
    let mut i: usize = 0;
    proof {
        lemma_commit_entries_non_negative(commits@, allowed);
        assert(entries.take(0) =~= Seq::<Entry>::empty());
    }
    while i < commits.len()
        invariant
            i <= commits@.len(),
            allowed == allow_list(extensions),
            entries == commit_entries(commits@, allowed),
            all_non_negative(entries),
            forall|j: int| 0 <= j < i ==> (#[trigger] commits@[j]).dated(),
            total_of(entries.take(i as int)) == entry_of(0, count, additions, deletions, files).totals,
            total_of(entries.take(i as int)).within_limits(),
        decreases commits@.len() - i,
    {
        let commit = &commits[i];
        proof {
            lemma_total_of_prefix(entries, i as int);
            lemma_total_of_prefix(entries, i + 1);
            assert(entries.take(i + 1).drop_last() =~= entries.take(i as int));
            assert(entries.take(i + 1).last() == entries[i as int]);
        }
        if !commit.is_dated() {
            return false;
        }
        match effective_changes(commit, extensions) {
            None => {
                return false;
            },
            Some(changes) => {
                if count == u32::MAX || changes.0 > i64::MAX as u64 - additions || changes.1
                    > i64::MAX as u64 - deletions || changes.2 > u32::MAX - files {
                    return false;
                }
                count = count + 1;
                additions = additions + changes.0;
                deletions = deletions + changes.1;
                files = files + changes.2;
            },
        }
        i = i + 1;
    }
    assert(entries.take(i as int) =~= entries);
    true
}

/// Groups buckets by period: the buckets whose dates share a key are merged
/// into one, dated by the earliest of them and labelled by the key, and the
/// merged buckets are ordered by date. The order of `buckets` does not
/// matter, and nothing is lost: the merged buckets sum to what `buckets`
/// sum to.
pub fn aggregate(buckets: Vec<PeriodStats>, period: Period) -> (out: Vec<PeriodStats>)
    requires
        sum_of(buckets@).within_limits(),
    ensures
        grouped(bucket_entries(buckets@), period, out@),
        sum_of(out@) == sum_of(buckets@),
{
    let ghost entries = bucket_entries(buckets@);
    let mut groups = Groups::new(period);
    let ghost mut seen = Seq::<Entry>::empty();
    let mut i: usize = 0;
    proof {
        assert(entries.take(0) =~= seen);
    }
    while i < buckets.len()
        invariant
            i <= buckets@.len(),
            entries == bucket_entries(buckets@),
            all_non_negative(entries),
            total_of(entries).within_limits(),
            groups.period == period,
            groups.holds(seen),
            seen == entries.take(i as int),
        decreases buckets@.len() - i,
    {
        let bucket = &buckets[i];
        proof {
            lemma_total_of_prefix(entries, i + 1);
            assert(entries.take(i + 1) =~= seen.push(entries[i as int]));
        }
        groups.absorb(
            bucket.date,
            bucket.commits,
            bucket.additions,
            bucket.deletions,
            bucket.files_changed,
            Ghost(seen),
        );
        proof {
            seen = seen.push(entries[i as int]);
        }
        i = i + 1;
    }
    assert(entries.take(i as int) =~= entries);
    groups.finish(Ghost(seen))
}

/// Merges daily buckets into one bucket for each ISO week, labelled
/// `YYYY-Www`.
pub fn aggregate_by_week(daily_stats: Vec<PeriodStats>) -> (out: Vec<PeriodStats>)
    requires
        sum_of(daily_stats@).within_limits(),
    ensures
        grouped(bucket_entries(daily_stats@), Period::Weekly, out@),
        sum_of(out@) == sum_of(daily_stats@),
{
    aggregate(daily_stats, Period::Weekly)
}

/// Merges daily buckets into one bucket for each month, labelled `YYYY-MM`.
pub fn aggregate_by_month(daily_stats: Vec<PeriodStats>) -> (out: Vec<PeriodStats>)
    requires
        sum_of(daily_stats@).within_limits(),
    ensures
        grouped(bucket_entries(daily_stats@), Period::Monthly, out@),
        sum_of(out@) == sum_of(daily_stats@),
{
    aggregate(daily_stats, Period::Monthly)
}

/// Merges daily buckets into one bucket for each year, labelled `YYYY`.
pub fn aggregate_by_year(daily_stats: Vec<PeriodStats>) -> (out: Vec<PeriodStats>)
    requires
        sum_of(daily_stats@).within_limits(),
    ensures
        grouped(bucket_entries(daily_stats@), Period::Yearly, out@),
        sum_of(out@) == sum_of(daily_stats@),
{
    aggregate(daily_stats, Period::Yearly)
}

/// A group of entries without counts sums to zero.
pub proof fn lemma_group_of_nothing(range: DateRange, key: (int, int), k: int)
    requires
        0 <= k <= range.spec_len(),
    ensures
        group_total(range_entries(range).take(k), Period::Daily, key) == Totals::zero(),
        total_of(range_entries(range).take(k)) == Totals::zero(),
    decreases k,
{
    if k > 0 {
        lemma_group_of_nothing(range, key, k - 1);
        let entries = range_entries(range);
        assert(entries.take(k).drop_last() =~= entries.take(k - 1));
        assert(entries.take(k).last() == entries[k - 1]);
    }
}

/// The buckets of a range without commits begin with one bucket for each
/// of its first days.
proof fn lemma_quiet_days(range: DateRange, buckets: Seq<PeriodStats>, k: int)
    requires
        grouped(range_entries(range), Period::Daily, buckets),
        0 <= k < range.spec_len(),
    ensures
        forall|i: int| 0 <= i <= k ==> i < buckets.len() && (#[trigger] buckets[i]).date@ == range.from@ + i,
    decreases k,
{
    let entries = range_entries(range);
    if k > 0 {
        lemma_quiet_days(range, buckets, k - 1);
    }
    let wanted = range.from@ + k;
    assert(entries[k].day == wanted);
    assert(has_group(buckets, Period::Daily, period_key(Period::Daily, entries[k].day)));
    let j = choose|j: int|
        0 <= j < buckets.len() && period_key(Period::Daily, (#[trigger] buckets[j]).date@)
            == period_key(Period::Daily, wanted);
    assert(buckets[j].date@ == wanted);
    if j < k {
        assert(buckets[j].date@ == range.from@ + j);
    }
    if j > k {
        assert(buckets[k].date@ < buckets[j].date@);
        assert(is_group(entries, Period::Daily, buckets[k]));
        let w = choose|w: int| 0 <= w < entries.len() && (#[trigger] entries[w]).day == buckets[k].date@;
        if k > 0 {
            assert(buckets[k - 1].date@ < buckets[k].date@);
        }
    }
}

/// A range without commits has one bucket for each of its days, in order,
/// each of them empty.
pub proof fn lemma_quiet_range(range: DateRange, buckets: Seq<PeriodStats>)
    requires
        grouped(range_entries(range), Period::Daily, buckets),
    ensures
        buckets.len() == range.spec_len(),
        forall|i: int|
            0 <= i < buckets.len() ==> {
                &&& (#[trigger] buckets[i]).date@ == range.from@ + i
                &&& buckets[i].totals() == Totals::zero()
                &&& buckets[i].net_lines == 0
            },
{
    let entries = range_entries(range);
    let n = range.spec_len() as int;
    if n > 0 {
        lemma_quiet_days(range, buckets, n - 1);
    }
    if buckets.len() > n {
        assert(is_group(entries, Period::Daily, buckets[n]));
        let w = choose|w: int| 0 <= w < entries.len() && (#[trigger] entries[w]).day == buckets[n].date@;
        if n > 0 {
            assert(buckets[n - 1].date@ < buckets[n].date@);
        }
    }
    assert forall|i: int| 0 <= i < buckets.len() implies {
        &&& (#[trigger] buckets[i]).date@ == range.from@ + i
        &&& buckets[i].totals() == Totals::zero()
        &&& buckets[i].net_lines == 0
    } by {
        assert(is_group(entries, Period::Daily, buckets[i]));
        lemma_group_of_nothing(range, period_key(Period::Daily, buckets[i].date@), n);
        assert(entries.take(n) =~= entries);
    }
}

/// Statistics of `commits` over `range`, by `period`.
///
/// Each commit counts as one commit on the UTC day of its timestamp, with
/// its own diff totals or, where `extensions` is given, with the lines and
/// the number of its files whose extension is in the list. Every day of the
/// range counts too, with nothing, so that a period of the range has a
/// bucket with or without commits; a commit outside the range has one for
/// its period as well. The buckets are the grouping of all these by day,
/// ISO week, month or year. The total is the sum over the buckets, which is
/// the sum over the commits whatever the period.
pub fn collect_stats(
    repo_name: &str,
    commits: Vec<CommitInfo>,
    range: DateRange,
    period: Period,
    extensions: Option<&[String]>,
) -> (result: AnalysisResult)
    requires
        countable(commits@, allow_list(extensions)),
    ensures
        result.repository@ == repo_name@,
        result.period@ == period.spec_name(),
        result.from == range.from,
        result.to == range.to,
        grouped(history_entries(commits@, allow_list(extensions), range), period, result.stats@),
        sum_of(result.stats@) == total_of(commit_entries(commits@, allow_list(extensions))),
        result.total.totals() == sum_of(result.stats@),
        result.total.net_consistent(),
        commits@.len() == 0 && period == Period::Daily ==> {
            &&& result.stats@.len() == range.spec_len()
            &&& forall|i: int|
                0 <= i < result.stats@.len() ==> {
                    &&& (#[trigger] result.stats@[i]).date@ == range.from@ + i
                    &&& result.stats@[i].commits == 0
                    &&& result.stats@[i].net_lines == 0
                }
        },
{
    let ghost allowed = allow_list(extensions);
    let ghost counted = commit_entries(commits@, allowed);
    let ghost filled = range_entries(range);
    let ghost entries = history_entries(commits@, allowed, range);
    let mut groups = Groups::new(Period::Daily);
    let ghost mut seen = Seq::<Entry>::empty();
    proof {
        lemma_commit_entries_non_negative(commits@, allowed);
        assert(counted.take(0) =~= seen);
    }
    let mut i: usize = 0;
    while i < commits.len()
        invariant
            i <= commits@.len(),
            allowed == allow_list(extensions),
            counted == commit_entries(commits@, allowed),
            countable(commits@, allowed),
            all_non_negative(counted),
            groups.period == Period::Daily,
            groups.holds(seen),
            seen == counted.take(i as int),
        decreases commits@.len() - i,
    {
        let commit = &commits[i];
        proof {
            lemma_total_of_prefix(counted, i + 1);
            assert(counted.take(i + 1) =~= seen.push(counted[i as int]));
            lemma_total_of_push(seen, counted[i as int]);
            lemma_total_of_prefix(counted, i as int);
        }
        let date = commit.date();
        match effective_changes(commit, extensions) {
            Some(changes) => {
                groups.absorb(date, 1, changes.0, changes.1, changes.2, Ghost(seen));
            },
            None => {
                // a countable history holds no such commit
                assert(false);
            },
        }
        proof {
            seen = seen.push(counted[i as int]);
        }
        i = i + 1;
    }
    proof {
        assert(counted.take(i as int) =~= counted);
        assert(counted + filled.take(0) =~= counted);
    }
    let first = range.from.day_number();
    let last = range.to.day_number();
    if first <= last {
        let mut day: i32 = first;
        loop
            invariant_except_break
                first <= day <= last,
                seen == counted + filled.take(day - first),
            invariant
                first == range.from@,
                last == range.to@,
                first <= last,
                day_in_range(first as int),
                day_in_range(last as int),
                filled == range_entries(range),
                total_of(counted).within_limits(),
                groups.period == Period::Daily,
                groups.holds(seen),
            ensures
                seen == counted + filled,
            decreases last - day,
        {
            proof {
                lemma_group_of_nothing(range, (0, 0), day - first);
                lemma_group_of_nothing(range, (0, 0), day - first + 1);
                lemma_total_of_concat(counted, filled.take(day - first));
                lemma_total_of_concat(counted, filled.take(day - first + 1));
                assert(counted + filled.take(day - first + 1) =~= seen.push(
                    filled[day - first],
                ));
            }
            match Date::from_day_number(day) {
                Some(date) => {
                    groups.absorb(date, 0, 0, 0, 0, Ghost(seen));
                },
                None => {
                    // every day between two dates is a date
                    assert(false);
                },
            }
            proof {
                seen = seen.push(filled[day - first]);
            }
            if day == last {
                proof {
                    assert(filled.take(day - first + 1) =~= filled);
                }
                break ;
            }
            day = day + 1;
        }
    } else {
        proof {
            assert(filled =~= Seq::<Entry>::empty());
            assert(counted + filled =~= counted);
        }
    }
    let daily = groups.finish(Ghost(seen));
    proof {
        lemma_group_of_nothing(range, (0, 0), filled.len() as int);
        assert(filled.take(filled.len() as int) =~= filled);
        lemma_total_of_concat(counted, filled);
        if commits@.len() == 0 {
            assert(counted + filled =~= filled);
            lemma_quiet_range(range, daily@);
        }
    }
    let ghost days = daily@;
    let stats = match period {
        Period::Daily => daily,
        Period::Weekly => aggregate_by_week(daily),
        Period::Monthly => aggregate_by_month(daily),
        Period::Yearly => aggregate_by_year(daily),
    };
    proof {
        if period != Period::Daily {
            lemma_regrouping(entries, days, period, stats@);
        }
    }
    AnalysisResult::new(
        String::from_str(repo_name),
        period.to_string(),
        range.from,
        range.to,
        stats,
    )
}

/// The sum over two sequences laid end to end is the sum of their sums.
pub proof fn lemma_total_of_concat(a: Seq<Entry>, b: Seq<Entry>)
    ensures
        total_of(a + b) == total_of(a).plus(total_of(b)),
    decreases b.len(),
{
    if b.len() == 0 {
        assert(a + b =~= a);
    } else {
        lemma_total_of_concat(a, b.drop_last());
        assert((a + b).drop_last() =~= a + b.drop_last());
        assert((a + b).last() == b.last());
    }
}

} // verus!
