//! The texts and the bars that the dashboard draws.

use crate::date::calendar_text;
use crate::stats::types::{ActivityStats, AnalysisResult, TotalStats};
use crate::text::{decimal, decimal_string};
use vstd::prelude::*;

verus! {

/// One bar of a bar chart.
#[derive(Debug)]
pub struct BarDataPoint {
    /// What the bar stands for.
    pub label: String,
    /// How long it is.
    pub value: u32,
}

impl BarDataPoint {
    pub fn new(label: String, value: u32) -> (r: BarDataPoint)
        ensures
            r.label == label,
            r.value == value,
    {
        BarDataPoint { label, value }
    }
}

/// Two dates with an arrow between them.
pub open spec fn date_range_text(from: Seq<char>, to: Seq<char>) -> Seq<char> {
    from + " → "@ + to
}

/// The header line: what is analysed, by which period, over which days.
pub open spec fn header_text(result: AnalysisResult) -> Seq<char> {
    " "@ + result.repository@ + " | "@ + result.period@ + " | "@ + date_range_text(
        calendar_text(result.from@),
        calendar_text(result.to@),
    ) + " "@
}

/// The name of the mode.
pub open spec fn mode_text(single_metric: bool) -> Seq<char> {
    if single_metric {
        "Single"@
    } else {
        "Split"@
    }
}

/// The line of the footer that tells the keys.
pub open spec fn help_text(single_metric: bool) -> Seq<char> {
    " [m] Mode: "@ + mode_text(single_metric) + " | [q] Quit "@
}

/// The line of the footer that sums up the analysis.
pub open spec fn summary_text(total: TotalStats) -> Seq<char> {
    "Total: "@ + decimal(total.commits as nat) + " commits | +"@ + decimal(total.additions as nat)
        + " -"@ + decimal(total.deletions as nat) + " | "@ + decimal(total.files_changed as nat)
        + " files"@
}

/// The footer: the keys, and below them the summary.
pub open spec fn footer_text(single_metric: bool, total: TotalStats) -> Seq<char> {
    help_text(single_metric) + "\n"@ + summary_text(total)
}

/// Two dates with an arrow between them.
pub fn format_date_range(from: &str, to: &str) -> (r: String)
    ensures
        r@ == date_range_text(from@, to@),
{
    let mut out = String::from_str(from);
    out.append(" → ");
    out.append(to);
    out
}

/// The header line of the dashboard.
pub fn header_title(result: &AnalysisResult) -> (r: String)
    ensures
        r@ == header_text(*result),
{
    let from = result.from.to_string();
    let to = result.to.to_string();
    let range = format_date_range(from.as_str(), to.as_str());
    let mut out = String::from_str(" ");
    out.append(result.repository.as_str());
    out.append(" | ");
    out.append(result.period.as_str());
    out.append(" | ");
    out.append(range.as_str());
    out.append(" ");
    out
}

/// The name of the mode.
pub fn mode_indicator(single_metric: bool) -> (r: &'static str)
    ensures
        r@ == mode_text(single_metric),
{
    if single_metric {
        "Single"
    } else {
        "Split"
    }
}

/// The footer of the dashboard.
pub fn footer(single_metric: bool, total: &TotalStats) -> (r: String)
    ensures
        r@ == footer_text(single_metric, *total),
{
    let mut help = String::from_str(" [m] Mode: ");
    help.append(mode_indicator(single_metric));
    help.append(" | [q] Quit ");
    let mut summary = String::from_str("Total: ");
    summary.append(decimal_string(total.commits as u64).as_str());
    summary.append(" commits | +");
    summary.append(decimal_string(total.additions).as_str());
    summary.append(" -");
    summary.append(decimal_string(total.deletions).as_str());
    summary.append(" | ");
    summary.append(decimal_string(total.files_changed as u64).as_str());
    summary.append(" files");
    help.append("\n");
    help.append(summary.as_str());
    help
}

/// The size of a value, whatever its sign.
pub open spec fn magnitude(value: int) -> int {
    if value < 0 {
        -value
    } else {
        value
    }
}

/// The largest size among the values of a series; 0 for an empty series.
pub open spec fn peak_of(values: Seq<(String, i64)>) -> int
    decreases values.len(),
{
    if values.len() == 0 {
        0
    } else {
        let before = peak_of(values.drop_last());
        let last = magnitude(values.last().1 as int);
        if last > before {
            last
        } else {
            before
        }
    }
}

/// The sum of the values of a series.
pub open spec fn total_of_series(values: Seq<(String, i64)>) -> int
    decreases values.len(),
{
    if values.len() == 0 {
        0
    } else {
        total_of_series(values.drop_last()) + values.last().1
    }
}

/// The largest size among the values of a series: the height that a chart
/// of the series needs.
pub fn series_peak(values: &Vec<(String, i64)>) -> (r: u64)
    ensures
        r == peak_of(values@),
{
    let mut peak: u64 = 0;
    let mut i: usize = 0;
    assert(values@.take(0) =~= Seq::<(String, i64)>::empty());
    while i < values.len()
        invariant
            i <= values@.len(),
            peak == peak_of(values@.take(i as int)),
        decreases values@.len() - i,
    {
        let value = values[i].1;
        let size: u64 = if value < 0 {
            ((-(value + 1)) as u64) + 1
        } else {
            value as u64
        };
        proof {
            let next = values@.take(i + 1);
            assert(next.drop_last() =~= values@.take(i as int));
            assert(next.last() == values@[i as int]);
        }
        if size > peak {
            peak = size;
        }
        i = i + 1;
    }
    assert(values@.take(i as int) =~= values@);
    peak
}

/// The sum of the values of a series, in a type wide enough for any
/// series.
pub fn series_total(values: &Vec<(String, i64)>) -> (r: i128)
    ensures
        r == total_of_series(values@),
{
    let mut total: i128 = 0;
    let mut i: usize = 0;
    assert(values@.take(0) =~= Seq::<(String, i64)>::empty());
    while i < values.len()
        invariant
            i <= values@.len(),
            total == total_of_series(values@.take(i as int)),
            -0x8000_0000_0000_0000 * i <= total <= 0x8000_0000_0000_0000 * i,
        decreases values@.len() - i,
    {
        proof {
            let next = values@.take(i + 1);
            assert(next.drop_last() =~= values@.take(i as int));
            assert(next.last() == values@[i as int]);
        }
        total = total + values[i].1 as i128;
        i = i + 1;
    }
    assert(values@.take(i as int) =~= values@);
    total
}

/// One bar for each day of the week, Monday first, labelled with the
/// short name of the day.
pub fn weekday_bars(stats: &ActivityStats) -> (r: Vec<BarDataPoint>)
    ensures
        r@.len() == 7,
        forall|i: int|
            0 <= i < 7 ==> {
                &&& (#[trigger] r@[i]).value == stats.weekday@[i]
                &&& r@[i].label@ == seq!["Mon", "Tue", "Wed", "Thu", "Fri", "Sat", "Sun"][i]@
            },
{
    let labels = ActivityStats::weekday_labels();
    let mut out: Vec<BarDataPoint> = Vec::new();
    let mut i: usize = 0;
    while i < 7
        invariant
            i <= 7,
            out@.len() == i,
            labels@ == seq!["Mon", "Tue", "Wed", "Thu", "Fri", "Sat", "Sun"],
            forall|k: int|
                0 <= k < i ==> {
                    &&& (#[trigger] out@[k]).value == stats.weekday@[k]
                    &&& out@[k].label@ == labels@[k]@
                },
        decreases 7 - i,
    {
        out.push(BarDataPoint { label: String::from_str(labels[i]), value: stats.weekday[i] });
        i = i + 1;
    }
    out
}

/// One bar for each hour of the day, labelled with the number of the hour.
pub fn hourly_bars(stats: &ActivityStats) -> (r: Vec<BarDataPoint>)
    ensures
        r@.len() == 24,
        forall|i: int|
            0 <= i < 24 ==> {
                &&& (#[trigger] r@[i]).value == stats.hourly@[i]
                &&& r@[i].label@ == decimal(i as nat)
            },
{
    let mut out: Vec<BarDataPoint> = Vec::new();
    let mut i: usize = 0;
    while i < 24
        invariant
            i <= 24,
            out@.len() == i,
            forall|k: int|
                0 <= k < i ==> {
                    &&& (#[trigger] out@[k]).value == stats.hourly@[k]
                    &&& out@[k].label@ == decimal(k as nat)
                },
        decreases 24 - i,
    {
        out.push(BarDataPoint { label: decimal_string(i as u64), value: stats.hourly[i] });
        i = i + 1;
    }
    out
}

} // verus!
