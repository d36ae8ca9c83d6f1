//! Buckets of accumulated statistics and the result of an analysis.

use crate::date::{calendar_text, Date, EPOCH_DAY};
use crate::stats::grouping::{
    all_non_negative, bucket_entries, lemma_total_of_prefix, sum_of, total_of, Entry,
};
use vstd::prelude::*;

verus! {

/// The four counters of a bucket as mathematical integers. Contracts speak
/// of sums in this form; they know no overflow.
pub struct Totals {
    pub commits: int,
    pub additions: int,
    pub deletions: int,
    pub files_changed: int,
}

impl Totals {
    /// All counters zero.
    pub open spec fn zero() -> Totals {
        Totals { commits: 0, additions: 0, deletions: 0, files_changed: 0 }
    }

    /// Counter by counter sum: the merge of two buckets.
    pub open spec fn plus(self, other: Totals) -> Totals {
        Totals {
            commits: self.commits + other.commits,
            additions: self.additions + other.additions,
            deletions: self.deletions + other.deletions,
            files_changed: self.files_changed + other.files_changed,
        }
    }

    /// Added lines minus removed lines.
    pub open spec fn net(self) -> int {
        self.additions - self.deletions
    }

    /// No counter is negative.
    pub open spec fn non_negative(self) -> bool {
        &&& 0 <= self.commits
        &&& 0 <= self.additions
        &&& 0 <= self.deletions
        &&& 0 <= self.files_changed
    }

    /// Every counter is at most the same counter of `other`.
    pub open spec fn at_most(self, other: Totals) -> bool {
        &&& self.commits <= other.commits
        &&& self.additions <= other.additions
        &&& self.deletions <= other.deletions
        &&& self.files_changed <= other.files_changed
    }

    /// The capacity of a bucket: commits and files stay below 2^32, added and
    /// removed lines below 2^63, so that their difference fits `net_lines`
    /// whatever part of them a bucket holds.
    pub open spec fn within_limits(self) -> bool {
        &&& self.non_negative()
        &&& self.commits <= u32::MAX
        &&& self.files_changed <= u32::MAX
        &&& self.additions <= i64::MAX
        &&& self.deletions <= i64::MAX
    }
}

/// Sum of a sequence of totals, by merging from the left.
pub open spec fn sum_totals(s: Seq<Totals>) -> Totals
    decreases s.len(),
{
    if s.len() == 0 {
        Totals::zero()
    } else {
        sum_totals(s.drop_last()).plus(s.last())
    }
}

/// Statistics accumulated over one period.
#[derive(Debug)]
pub struct PeriodStats {
    /// Display text of the period, such as `2024-01` or `2024-W03`.
    pub label: String,
    /// The date the bucket stands for and is sorted by.
    pub date: Date,
    /// Number of commits.
    pub commits: u32,
    /// Lines added.
    pub additions: u64,
    /// Lines removed.
    pub deletions: u64,
    /// Lines added minus lines removed.
    pub net_lines: i64,
    /// Number of files changed.
    pub files_changed: u32,
}

impl Clone for PeriodStats {
    fn clone(&self) -> (r: Self)
        ensures
            r == *self,
    {
        PeriodStats {
            label: self.label.clone(),
            date: self.date,
            commits: self.commits,
            additions: self.additions,
            deletions: self.deletions,
            net_lines: self.net_lines,
            files_changed: self.files_changed,
        }
    }
}

impl Default for PeriodStats {
    /// An empty bucket without a label, dated January 1, 1970.
    fn default() -> (r: PeriodStats)
        ensures
            r.label@ == Seq::<char>::empty(),
            r.date@ == EPOCH_DAY,
            r.totals() == Totals::zero(),
            r.net_lines == 0,
    {
        PeriodStats {
            label: String::new(),
            date: Date::default(),
            commits: 0,
            additions: 0,
            deletions: 0,
            net_lines: 0,
            files_changed: 0,
        }
    }
}

impl PeriodStats {
    /// The counters of the bucket.
    pub open spec fn totals(self) -> Totals {
        Totals {
            commits: self.commits as int,
            additions: self.additions as int,
            deletions: self.deletions as int,
            files_changed: self.files_changed as int,
        }
    }

    /// `net_lines` is what the other counters say: additions minus
    /// deletions.
    pub open spec fn net_consistent(self) -> bool {
        self.net_lines == self.totals().net()
    }

    /// Whether any of commits, additions and deletions is not zero.
    pub open spec fn active(self) -> bool {
        self.commits > 0 || self.additions > 0 || self.deletions > 0
    }

    /// An empty bucket for one day, labelled with the date's written form.
    pub fn new(date: Date) -> (r: PeriodStats)
        ensures
            r.date == date,
            r.label@ == calendar_text(date@),
            r.totals() == Totals::zero(),
            r.net_lines == 0,
    {
        PeriodStats {
            label: date.to_string(),
            date,
            commits: 0,
            additions: 0,
            deletions: 0,
            net_lines: 0,
            files_changed: 0,
        }
    }

    /// An empty bucket with a label of the caller's choice.
    pub fn with_label(date: Date, label: String) -> (r: PeriodStats)
        ensures
            r.date == date,
            r.label == label,
            r.totals() == Totals::zero(),
            r.net_lines == 0,
    {
        PeriodStats {
            label,
            date,
            commits: 0,
            additions: 0,
            deletions: 0,
            net_lines: 0,
            files_changed: 0,
        }
    }

    /// Sets `net_lines` to additions minus deletions.
    pub fn update_net_lines(&mut self)
        requires
            old(self).totals().within_limits(),
        ensures
            final(self).net_consistent(),
            final(self).totals() == old(self).totals(),
            final(self).label == old(self).label,
            final(self).date == old(self).date,
    {
        self.net_lines = net_of(self.additions, self.deletions);
    }

    /// Adds the counters of `other` to this bucket and brings `net_lines`
    /// up to date. Label and date stay.
    pub fn merge(&mut self, other: &PeriodStats)
        requires
            old(self).totals().plus(other.totals()).within_limits(),
        ensures
            final(self).totals() == old(self).totals().plus(other.totals()),
            final(self).net_consistent(),
            final(self).label == old(self).label,
            final(self).date == old(self).date,
    {
        self.commits = self.commits + other.commits;
        self.additions = self.additions + other.additions;
        self.deletions = self.deletions + other.deletions;
        self.files_changed = self.files_changed + other.files_changed;
        self.update_net_lines();
    }
}

/// Additions minus deletions, for counts below 2^63.
pub fn net_of(additions: u64, deletions: u64) -> (r: i64)
    requires
        additions <= i64::MAX,
        deletions <= i64::MAX,
    ensures
        r == additions - deletions,
{
    additions as i64 - deletions as i64
}

/// Statistics of a whole analysis: the counters of all its periods.
#[derive(Debug, Clone, Copy, PartialEq, Eq, Structural)]
pub struct TotalStats {
    /// Number of commits.
    pub commits: u32,
    /// Lines added.
    pub additions: u64,
    /// Lines removed.
    pub deletions: u64,
    /// Lines added minus lines removed.
    pub net_lines: i64,
    /// Number of files changed.
    pub files_changed: u32,
}

impl Default for TotalStats {
    fn default() -> (r: TotalStats)
        ensures
            r.totals() == Totals::zero(),
            r.net_lines == 0,
    {
        TotalStats { commits: 0, additions: 0, deletions: 0, net_lines: 0, files_changed: 0 }
    }
}

impl TotalStats {
    /// The counters.
    pub open spec fn totals(self) -> Totals {
        Totals {
            commits: self.commits as int,
            additions: self.additions as int,
            deletions: self.deletions as int,
            files_changed: self.files_changed as int,
        }
    }

    /// `net_lines` is additions minus deletions.
    pub open spec fn net_consistent(self) -> bool {
        self.net_lines == self.totals().net()
    }

    /// The counters of all the buckets together.
    pub fn of(stats: &Vec<PeriodStats>) -> (r: TotalStats)
        requires
            sum_of(stats@).within_limits(),
        ensures
            r.totals() == sum_of(stats@),
            r.net_consistent(),
    {
        let ghost entries = bucket_entries(stats@);
        let mut commits: u32 = 0;
        let mut additions: u64 = 0;
        let mut deletions: u64 = 0;
        let mut files_changed: u32 = 0;
        let mut i: usize = 0;
        proof {
            assert(entries.take(0) =~= Seq::<Entry>::empty());
        }
        while i < stats.len()
            invariant
                i <= stats@.len(),
                entries == bucket_entries(stats@),
                all_non_negative(entries),
                total_of(entries).within_limits(),
                total_of(entries.take(i as int)) == (Totals {
                    commits: commits as int,
                    additions: additions as int,
                    deletions: deletions as int,
                    files_changed: files_changed as int,
                }),
            decreases stats@.len() - i,
        {
            let bucket = &stats[i];
            proof {
                lemma_total_of_prefix(entries, i + 1);
                assert(entries.take(i + 1).drop_last() =~= entries.take(i as int));
                assert(entries.take(i + 1).last() == entries[i as int]);
            }
            commits = commits + bucket.commits;
            additions = additions + bucket.additions;
            deletions = deletions + bucket.deletions;
            files_changed = files_changed + bucket.files_changed;
            i = i + 1;
        }
        assert(entries.take(i as int) =~= entries);
        TotalStats {
            commits,
            additions,
            deletions,
            net_lines: net_of(additions, deletions),
            files_changed,
        }
    }
}

/// Statistics of one repository, or of several taken together, over a date
/// range.
#[derive(Debug)]
pub struct AnalysisResult {
    /// Name of what was analysed.
    pub repository: String,
    /// Name of the granularity: `daily`, `weekly`, `monthly` or `yearly`.
    pub period: String,
    /// First day of the range.
    pub from: Date,
    /// Last day of the range.
    pub to: Date,
    /// One bucket for each period, in ascending order of date.
    pub stats: Vec<PeriodStats>,
    /// The counters of all periods together.
    pub total: TotalStats,
}

impl AnalysisResult {
    /// The result with the given buckets; the total is computed from them.
    pub fn new(
        repository: String,
        period: String,
        from: Date,
        to: Date,
        stats: Vec<PeriodStats>,
    ) -> (r: AnalysisResult)
        requires
            sum_of(stats@).within_limits(),
        ensures
            r.repository == repository,
            r.period == period,
            r.from == from,
            r.to == to,
            r.stats == stats,
            r.total.totals() == sum_of(stats@),
            r.total.net_consistent(),
    {
        let total = TotalStats::of(&stats);
        AnalysisResult { repository, period, from, to, stats, total }
    }
}

/// When commits are made: how many on each day of the week, from Monday,
/// and how many in each hour of the day. The library shows these counts; it
/// does not compute them.
#[derive(Debug, Clone, Copy, PartialEq, Eq)]
pub struct ActivityStats {
    /// Commits by day of the week; Monday is first.
    pub weekday: [u32; 7],
    /// Commits by hour of the day, from 0 to 23.
    pub hourly: [u32; 24],
}

impl Default for ActivityStats {
    /// No commit at any time.
    fn default() -> (r: ActivityStats)
        ensures
            forall|i: int| 0 <= i < 7 ==> r.weekday@[i] == 0,
            forall|i: int| 0 <= i < 24 ==> r.hourly@[i] == 0,
    {
        ActivityStats { weekday: [0u32; 7], hourly: [0u32; 24] }
    }
}

impl ActivityStats {
    /// The short names of the days of the week, Monday first.
    pub fn weekday_labels() -> (r: [&'static str; 7])
        ensures
            r@ == seq!["Mon", "Tue", "Wed", "Thu", "Fri", "Sat", "Sun"],
    {
        let r = ["Mon", "Tue", "Wed", "Thu", "Fri", "Sat", "Sun"];
        assert(r@ =~= seq!["Mon", "Tue", "Wed", "Thu", "Fri", "Sat", "Sun"]);
        r
    }
}

} // verus!
