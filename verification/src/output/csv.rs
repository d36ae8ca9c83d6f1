//! Export as comma-separated values.

use crate::date::calendar_text;
use crate::error::StatsError;
use crate::output::format::Formatter;
use crate::stats::types::{AnalysisResult, PeriodStats, TotalStats};
use crate::text::{decimal, push_decimal, push_signed_decimal, signed_decimal};
use vstd::prelude::*;

verus! {

/// The header row, with its line end.
pub open spec fn header_text() -> Seq<char> {
    "date,commits,additions,deletions,net_lines,files_changed\n"@
}

/// The five numbers of a row, each after a comma, and the line end.
pub open spec fn numbers_text(
    commits: u32,
    additions: u64,
    deletions: u64,
    net_lines: i64,
    files_changed: u32,
) -> Seq<char> {
    seq![','] + decimal(commits as nat) + seq![','] + decimal(additions as nat) + seq![',']
        + decimal(deletions as nat) + seq![','] + signed_decimal(net_lines as int) + seq![',']
        + decimal(files_changed as nat) + seq!['\n']
}

/// The row of one period: its date, then its numbers.
pub open spec fn row_text(stat: PeriodStats) -> Seq<char> {
    calendar_text(stat.date@) + numbers_text(
        stat.commits,
        stat.additions,
        stat.deletions,
        stat.net_lines,
        stat.files_changed,
    )
}

/// The rows of all periods, in order.
pub open spec fn rows_text(stats: Seq<PeriodStats>) -> Seq<char>
    decreases stats.len(),
{
    if stats.len() == 0 {
        Seq::empty()
    } else {
        rows_text(stats.drop_last()) + row_text(stats.last())
    }
}

/// The last row: the word `TOTAL` in place of a date, then the totals.
pub open spec fn total_text(total: TotalStats) -> Seq<char> {
    "TOTAL"@ + numbers_text(
        total.commits,
        total.additions,
        total.deletions,
        total.net_lines,
        total.files_changed,
    )
}

/// The whole export: the header if asked for, one row for each period, and
/// the total row.
pub open spec fn csv_text(include_headers: bool, result: AnalysisResult) -> Seq<char> {
    (if include_headers {
        header_text()
    } else {
        Seq::empty()
    }) + rows_text(result.stats@) + total_text(result.total)
}

/// Appends the five numbers of a row and the line end.
fn push_numbers(
    out: &mut String,
    commits: u32,
    additions: u64,
    deletions: u64,
    net_lines: i64,
    files_changed: u32,
)
    ensures
        final(out)@ == old(out)@ + numbers_text(
            commits,
            additions,
            deletions,
            net_lines,
            files_changed,
        ),
{
    proof {
        reveal_strlit(",");
        reveal_strlit("\n");
    }
    out.append(",");
    push_decimal(out, commits as u64);
    out.append(",");
    push_decimal(out, additions);
    out.append(",");
    push_decimal(out, deletions);
    out.append(",");
    push_signed_decimal(out, net_lines);
    out.append(",");
    push_decimal(out, files_changed as u64);
    out.append("\n");
    assert(final(out)@ =~= old(out)@ + numbers_text(
        commits,
        additions,
        deletions,
        net_lines,
        files_changed,
    ));
}

/// Export as comma-separated values.
#[derive(Debug, Clone, Copy, PartialEq, Eq, Structural)]
pub struct CsvFormatter {
    /// Whether the export begins with a header row.
    pub include_headers: bool,
}

impl CsvFormatter {
    /// A formatter that writes the header row.
    pub fn new() -> (r: CsvFormatter)
        ensures
            r.include_headers,
    {
        CsvFormatter { include_headers: true }
    }

    /// A formatter that writes no header row.
    pub fn without_headers() -> (r: CsvFormatter)
        ensures
            !r.include_headers,
    {
        CsvFormatter { include_headers: false }
    }

    /// The export of `result` as text.
    pub fn to_csv(&self, result: &AnalysisResult) -> (out: String)
        ensures
            out@ == csv_text(self.include_headers, *result),
    {
        let mut out = String::new();
        if self.include_headers {
            out.append("date,commits,additions,deletions,net_lines,files_changed\n");
        }
        let ghost head = out@;
        let mut i: usize = 0;
        assert(result.stats@.take(0) =~= Seq::<PeriodStats>::empty());
        while i < result.stats.len()
            invariant
                i <= result.stats@.len(),
                out@ == head + rows_text(result.stats@.take(i as int)),
            decreases result.stats@.len() - i,
        {
            let stat = &result.stats[i];
            let ghost before = out@;
            let date = stat.date.to_string();
            out.append(date.as_str());
            push_numbers(
                &mut out,
                stat.commits,
                stat.additions,
                stat.deletions,
                stat.net_lines,
                stat.files_changed,
            );
            proof {
                let done = result.stats@.take(i + 1);
                assert(done.drop_last() =~= result.stats@.take(i as int));
                assert(done.last() == *stat);
                assert(out@ =~= head + rows_text(done));
            }
            i = i + 1;
        }
        assert(result.stats@.take(i as int) =~= result.stats@);
        let ghost rows = out@;
        proof {
            reveal_strlit("TOTAL");
        }
        out.append("TOTAL");
        push_numbers(
            &mut out,
            result.total.commits,
            result.total.additions,
            result.total.deletions,
            result.total.net_lines,
            result.total.files_changed,
        );
        assert(out@ =~= csv_text(self.include_headers, *result));
        out
    }
}

impl Default for CsvFormatter {
    fn default() -> (r: CsvFormatter)
        ensures
            r.include_headers,
    {
        CsvFormatter::new()
    }
}

impl Formatter for CsvFormatter {
    /// The export of `result`; it never fails.
    fn format(&self, result: &AnalysisResult) -> (r: Result<String, StatsError>)
        ensures
            r matches Ok(text) && text@ == csv_text(self.include_headers, *result),
    {
        Ok(self.to_csv(result))
    }
}

} // verus!
