//! Dashboard state: what is shown, and how keys change it.

use crate::stats::types::{ActivityStats, AnalysisResult};
use crate::tui::event::KeyPress;
use crate::tui::mvu::{key_action, spec_key_action, step, update, Action, Model};
use vstd::prelude::*;

verus! {

/// One bar pair of the chart of added and removed lines.
#[derive(Debug)]
pub struct AddDelDataPoint {
    pub label: String,
    pub additions: u64,
    pub deletions: u64,
}

/// What a line chart shows.
#[derive(Debug, Clone, Copy, PartialEq, Eq, Structural)]
pub enum Metric {
    Commits,
    AdditionsAndDeletions,
    FilesChanged,
}

impl Default for Metric {
    fn default() -> (r: Metric)
        ensures
            r == Metric::Commits,
    {
        Metric::Commits
    }
}

impl Metric {
    /// The metric after this one; after the last comes the first.
    pub open spec fn spec_next(self) -> Metric {
        match self {
            Metric::Commits => Metric::AdditionsAndDeletions,
            Metric::AdditionsAndDeletions => Metric::FilesChanged,
            Metric::FilesChanged => Metric::Commits,
        }
    }

    /// The metric before this one; before the first comes the last.
    pub open spec fn spec_prev(self) -> Metric {
        match self {
            Metric::Commits => Metric::FilesChanged,
            Metric::AdditionsAndDeletions => Metric::Commits,
            Metric::FilesChanged => Metric::AdditionsAndDeletions,
        }
    }

    /// The display name.
    pub open spec fn spec_name(self) -> Seq<char> {
        match self {
            Metric::Commits => "Commits"@,
            Metric::AdditionsAndDeletions => "Additions / Deletions"@,
            Metric::FilesChanged => "Files Changed"@,
        }
    }

    /// The next metric in the cycle.
    #[verifier::when_used_as_spec(spec_next)]
    pub fn next(self) -> (r: Metric)
        ensures
            r == self.spec_next(),
    {
        match self {
            Metric::Commits => Metric::AdditionsAndDeletions,
            Metric::AdditionsAndDeletions => Metric::FilesChanged,
            Metric::FilesChanged => Metric::Commits,
        }
    }

    /// The previous metric in the cycle.
    #[verifier::when_used_as_spec(spec_prev)]
    pub fn prev(self) -> (r: Metric)
        ensures
            r == self.spec_prev(),
    {
        match self {
            Metric::Commits => Metric::FilesChanged,
            Metric::AdditionsAndDeletions => Metric::Commits,
            Metric::FilesChanged => Metric::AdditionsAndDeletions,
        }
    }

    /// The display name.
    pub fn name(self) -> (r: &'static str)
        ensures
            r@ == self.spec_name(),
    {
        match self {
            Metric::Commits => "Commits",
            Metric::AdditionsAndDeletions => "Additions / Deletions",
            Metric::FilesChanged => "Files Changed",
        }
    }

    /// `next` and `prev` undo each other, and three steps either way lead
    /// back to the start.
    pub proof fn lemma_cycle(self)
        ensures
            self.next().prev() == self,
            self.prev().next() == self,
            self.next().next().next() == self,
            self.prev().prev().prev() == self,
    {
    }
}

/// Chart shown in single mode. The five charts form a fixed cycle.
#[derive(Debug, Clone, Copy, PartialEq, Eq, Structural)]
pub enum ChartType {
    Commits,
    FilesChanged,
    AddDel,
    Weekday,
    Hour,
}

impl Default for ChartType {
    fn default() -> (r: ChartType)
        ensures
            r == ChartType::Commits,
    {
        ChartType::Commits
    }
}

impl ChartType {
    /// Position of the chart in the cycle, from 0.
    pub open spec fn index(self) -> int {
        match self {
            ChartType::Commits => 0,
            ChartType::FilesChanged => 1,
            ChartType::AddDel => 2,
            ChartType::Weekday => 3,
            ChartType::Hour => 4,
        }
    }

    /// The chart at a position of the cycle, taken modulo its length.
    pub open spec fn at(i: int) -> ChartType {
        let k = i % 5;
        if k == 0 {
            ChartType::Commits
        } else if k == 1 {
            ChartType::FilesChanged
        } else if k == 2 {
            ChartType::AddDel
        } else if k == 3 {
            ChartType::Weekday
        } else {
            ChartType::Hour
        }
    }

    /// The chart one position further in the cycle.
    pub open spec fn spec_next(self) -> ChartType {
        ChartType::at(self.index() + 1)
    }

    /// The chart one position back in the cycle.
    pub open spec fn spec_prev(self) -> ChartType {
        ChartType::at(self.index() + 4)
    }

    /// The display name.
    pub open spec fn spec_name(self) -> Seq<char> {
        match self {
            ChartType::Commits => "Commits"@,
            ChartType::FilesChanged => "Files Changed"@,
            ChartType::AddDel => "Add/Del"@,
            ChartType::Weekday => "Weekday"@,
            ChartType::Hour => "Hour"@,
        }
    }

    /// The chart after `n` steps forward.
    pub open spec fn forward(self, n: nat) -> ChartType
        decreases n,
    {
        if n == 0 {
            self
        } else {
            self.forward((n - 1) as nat).spec_next()
        }
    }

    /// The chart after `n` steps back.
    pub open spec fn backward(self, n: nat) -> ChartType
        decreases n,
    {
        if n == 0 {
            self
        } else {
            self.backward((n - 1) as nat).spec_prev()
        }
    }

    /// The next chart in the cycle.
    #[verifier::when_used_as_spec(spec_next)]
    pub fn next(self) -> (r: ChartType)
        ensures
            r == self.spec_next(),
    {
        match self {
            ChartType::Commits => ChartType::FilesChanged,
            ChartType::FilesChanged => ChartType::AddDel,
            ChartType::AddDel => ChartType::Weekday,
            ChartType::Weekday => ChartType::Hour,
            ChartType::Hour => ChartType::Commits,
        }
    }

    /// The previous chart in the cycle.
    #[verifier::when_used_as_spec(spec_prev)]
    pub fn prev(self) -> (r: ChartType)
        ensures
            r == self.spec_prev(),
    {
        match self {
            ChartType::Commits => ChartType::Hour,
            ChartType::FilesChanged => ChartType::Commits,
            ChartType::AddDel => ChartType::FilesChanged,
            ChartType::Weekday => ChartType::AddDel,
            ChartType::Hour => ChartType::Weekday,
        }
    }

    /// The display name.
    pub fn name(self) -> (r: &'static str)
        ensures
            r@ == self.spec_name(),
    {
        match self {
            ChartType::Commits => "Commits",
            ChartType::FilesChanged => "Files Changed",
            ChartType::AddDel => "Add/Del",
            ChartType::Weekday => "Weekday",
            ChartType::Hour => "Hour",
        }
    }

    /// `next` and `prev` are inverse to each other.
    pub proof fn lemma_next_prev_inverse(self)
        ensures
            self.next().prev() == self,
            self.prev().next() == self,
    {
    }

    /// `n` steps forward lead to the chart `n` positions further, modulo
    /// five.
    pub proof fn lemma_forward(self, n: nat)
        ensures
            self.forward(n) == ChartType::at(self.index() + n),
            ChartType::at(self.index()) == self,
        decreases n,
    {
        if n > 0 {
            self.lemma_forward((n - 1) as nat);
        }
    }

    /// `n` steps back lead to the chart `n` positions back, modulo five.
    pub proof fn lemma_backward(self, n: nat)
        ensures
            self.backward(n) == ChartType::at(self.index() + 4 * n),
        decreases n,
    {
        if n > 0 {
            self.lemma_backward((n - 1) as nat);
        }
    }

    /// Five steps, forward or back, lead back to the start, and fewer do
    /// not: the cycle has length five.
    pub proof fn lemma_cycle_of_five(self)
        ensures
            self.forward(5) == self,
            self.backward(5) == self,
            forall|n: nat| 0 < n < 5 ==> self.forward(n) != self,
            forall|n: nat| 0 < n < 5 ==> self.backward(n) != self,
    {
        self.lemma_forward(5);
        self.lemma_backward(5);
        assert forall|n: nat| 0 < n < 5 implies self.forward(n) != self by {
            self.lemma_forward(n);
        }
        assert forall|n: nat| 0 < n < 5 implies self.backward(n) != self by {
            self.lemma_backward(n);
        }
    }
}

/// The dashboard: the analysis on show and the state of the view.
#[derive(Debug)]
pub struct App {
    /// The analysis on show.
    pub result: AnalysisResult,
    /// Commits by day of the week and by hour.
    pub activity_stats: ActivityStats,
    /// The chart shown in single mode.
    pub chart_type: ChartType,
    /// Whether the dashboard is to close.
    pub should_quit: bool,
    /// Whether one chart is shown instead of all.
    pub single_metric: bool,
    /// How far the view is scrolled towards older periods; 0 shows the
    /// latest.
    pub scroll_offset: usize,
}

impl App {
    /// The state of the view, with the number of periods as context.
    pub open spec fn model(self) -> Model {
        Model {
            chart_type: self.chart_type,
            should_quit: self.should_quit,
            single_metric: self.single_metric,
            scroll_offset: self.scroll_offset,
            data_len: self.result.stats.len(),
        }
    }

    /// A dashboard on the first chart, not scrolled.
    pub fn new(result: AnalysisResult, activity_stats: ActivityStats, single_metric: bool) -> (r:
        App)
        ensures
            r.result == result,
            r.activity_stats == activity_stats,
            r.chart_type == ChartType::Commits,
            !r.should_quit,
            r.single_metric == single_metric,
            r.scroll_offset == 0,
    {
        App {
            result,
            activity_stats,
            chart_type: ChartType::Commits,
            should_quit: false,
            single_metric,
            scroll_offset: 0,
        }
    }

    /// The state of the view.
    pub fn snapshot(&self) -> (r: Model)
        ensures
            r == self.model(),
    {
        Model {
            chart_type: self.chart_type,
            should_quit: self.should_quit,
            single_metric: self.single_metric,
            scroll_offset: self.scroll_offset,
            data_len: self.result.stats.len(),
        }
    }

    /// Takes over a state of the view.
    fn adopt(&mut self, model: Model)
        requires
            model.data_len == old(self).result.stats.len(),
        ensures
            final(self).model() == model,
            final(self).result == old(self).result,
            final(self).activity_stats == old(self).activity_stats,
    {
        self.chart_type = model.chart_type;
        self.should_quit = model.should_quit;
        self.single_metric = model.single_metric;
        self.scroll_offset = model.scroll_offset;
    }

    /// Takes an action: the view changes as the transition says. What is
    /// on show stays.
    pub fn apply(&mut self, action: Action)
        ensures
            final(self).model() == step(old(self).model(), action),
            final(self).result == old(self).result,
            final(self).activity_stats == old(self).activity_stats,
    {
        let next = update(self.snapshot(), action);
        self.adopt(next);
    }

    /// Reacts to a key: the view changes as the action of the key says, and
    /// stays as it is for a key without an action. What is on show stays.
    pub fn handle_key(&mut self, key: KeyPress)
        ensures
            final(self).model() == match spec_key_action(key) {
                Some(action) => step(old(self).model(), action),
                None => old(self).model(),
            },
            final(self).result == old(self).result,
            final(self).activity_stats == old(self).activity_stats,
    {
        match key_action(key) {
            Some(action) => self.apply(action),
            None => {},
        }
    }

    /// Whether the view can be scrolled: always in split mode, and in single
    /// mode on the chart of additions and deletions only.
    pub fn can_scroll(&self) -> (r: bool)
        ensures
            r == self.model().can_scroll(),
            r == !(self.single_metric && self.chart_type != ChartType::AddDel),
    {
        self.snapshot().scrollable()
    }

    /// Scrolls one period towards the past, as far as the oldest period.
    pub fn scroll_up(&mut self)
        ensures
            final(self).model() == old(self).model().scrolled_up(),
            final(self).result == old(self).result,
            final(self).activity_stats == old(self).activity_stats,
    {
        let next = self.snapshot().scroll_up();
        self.adopt(next);
    }

    /// Scrolls one period towards the present, as far as the latest period.
    pub fn scroll_down(&mut self)
        ensures
            final(self).model() == old(self).model().scrolled_down(),
            final(self).result == old(self).result,
            final(self).activity_stats == old(self).activity_stats,
    {
        let next = self.snapshot().scroll_down();
        self.adopt(next);
    }

    /// The value of a metric in one period.
    pub open spec fn metric_value(metric: Metric, stat: crate::stats::types::PeriodStats) -> int {
        match metric {
            Metric::Commits => stat.commits as int,
            Metric::AdditionsAndDeletions => stat.net_lines as int,
            Metric::FilesChanged => stat.files_changed as int,
        }
    }

    /// For each period, its label and the value of the metric: the number
    /// of commits, the net lines, or the number of files changed.
    pub fn values_for_metric(&self, metric: Metric) -> (r: Vec<(String, i64)>)
        ensures
            r@.len() == self.result.stats@.len(),
            forall|i: int|
                0 <= i < r@.len() ==> {
                    &&& (#[trigger] r@[i]).0 == self.result.stats@[i].label
                    &&& r@[i].1 == App::metric_value(metric, self.result.stats@[i])
                },
    {
        let mut out: Vec<(String, i64)> = Vec::new();
        let mut i: usize = 0;
        while i < self.result.stats.len()
            invariant
                i <= self.result.stats@.len(),
                out@.len() == i,
                forall|k: int|
                    0 <= k < i ==> {
                        &&& (#[trigger] out@[k]).0 == self.result.stats@[k].label
                        &&& out@[k].1 == App::metric_value(metric, self.result.stats@[k])
                    },
            decreases self.result.stats@.len() - i,
        {
            let stat = &self.result.stats[i];
            let value: i64 = match metric {
                Metric::Commits => stat.commits as i64,
                Metric::AdditionsAndDeletions => stat.net_lines,
                Metric::FilesChanged => stat.files_changed as i64,
            };
            out.push((stat.label.clone(), value));
            i = i + 1;
        }
        out
    }

    /// The three metrics, in the order of their cycle.
    pub fn all_metrics() -> (r: [Metric; 3])
        ensures
            r@ == seq![Metric::Commits, Metric::AdditionsAndDeletions, Metric::FilesChanged],
    {
        let r = [Metric::Commits, Metric::AdditionsAndDeletions, Metric::FilesChanged];
        assert(r@ =~= seq![Metric::Commits, Metric::AdditionsAndDeletions, Metric::FilesChanged]);
        r
    }

    /// For each period, its label with its added and removed lines.
    pub fn additions_deletions_data(&self) -> (r: Vec<AddDelDataPoint>)
        ensures
            r@.len() == self.result.stats@.len(),
            forall|i: int|
                0 <= i < r@.len() ==> {
                    &&& (#[trigger] r@[i]).label == self.result.stats@[i].label
                    &&& r@[i].additions == self.result.stats@[i].additions
                    &&& r@[i].deletions == self.result.stats@[i].deletions
                },
    {
        let mut out: Vec<AddDelDataPoint> = Vec::new();
        let mut i: usize = 0;
        while i < self.result.stats.len()
            invariant
                i <= self.result.stats@.len(),
                out@.len() == i,
                forall|k: int|
                    0 <= k < i ==> {
                        &&& (#[trigger] out@[k]).label == self.result.stats@[k].label
                        &&& out@[k].additions == self.result.stats@[k].additions
                        &&& out@[k].deletions == self.result.stats@[k].deletions
                    },
            decreases self.result.stats@.len() - i,
        {
            let stat = &self.result.stats[i];
            out.push(
                AddDelDataPoint {
                    label: stat.label.clone(),
                    additions: stat.additions,
                    deletions: stat.deletions,
                },
            );
            i = i + 1;
        }
        out
    }
}

} // verus!
