//! Export as a JSON document.
//!
//! The document is an object with the members `repository`, `period`,
//! `from`, `to`, `stats` (an array with one object for each period) and
//! `total`, in this order. Strings are quoted and escaped by `serde_json`;
//! the layout is written here, compact or indented by two spaces a level.

use crate::date::calendar_text;
use crate::error::StatsError;
use crate::output::format::Formatter;
use crate::stats::types::{AnalysisResult, PeriodStats, TotalStats};
use crate::text::{decimal, decimal_string, signed_decimal, signed_decimal_string};
use vstd::prelude::*;

verus! {

/// A text as a JSON string: between double quotes, with the characters
/// escaped that JSON asks for, as `serde_json` writes it; `None` where
/// `serde_json` does not write the text.
pub uninterp spec fn json_quoted(text: Seq<char>) -> Option<Seq<char>>;

/// Calls `serde_json::to_string` on a string slice. The result is named
/// [`json_quoted`]: the text that comes back where the call succeeds, and
/// `None` where it fails.
#[verifier::external_body]
fn quote(text: &str) -> (r: Result<String, serde_json::Error>)
    ensures
        json_quoted(text@) == match r {
            Ok(quoted) => Some(quoted@),
            Err(_) => None,
        },
{
    serde_json::to_string(text)
}

/// One period, ready to be written: its strings quoted, its numbers as
/// they are.
pub struct RowView {
    pub label: Seq<char>,
    pub date: Seq<char>,
    pub numbers: TotalStats,
}

/// A whole analysis, ready to be written.
pub struct DocumentView {
    pub repository: Seq<char>,
    pub period: Seq<char>,
    pub from: Seq<char>,
    pub to: Seq<char>,
    pub rows: Seq<RowView>,
    pub total: TotalStats,
}

/// `n` blanks.
pub open spec fn blanks(n: nat) -> Seq<char> {
    Seq::new(n, |i: int| ' ')
}

/// What stands before a member or an element at the given depth: nothing
/// in a compact document, a line end and two blanks for each level in an
/// indented one.
pub open spec fn gap(pretty: bool, depth: nat) -> Seq<char> {
    if pretty {
        seq!['\n'] + blanks(2 * depth)
    } else {
        Seq::empty()
    }
}

/// What separates a key from its value.
pub open spec fn colon(pretty: bool) -> Seq<char> {
    if pretty {
        seq![':', ' ']
    } else {
        seq![':']
    }
}

/// A member of an object: gap, key in quotes, colon, value.
pub open spec fn member(pretty: bool, depth: nat, key: Seq<char>, value: Seq<char>) -> Seq<char> {
    gap(pretty, depth) + seq!['"'] + key + seq!['"'] + colon(pretty) + value
}

/// The five members that hold the numbers of a bucket, separated by commas.
pub open spec fn numbers_members(pretty: bool, depth: nat, n: TotalStats) -> Seq<char> {
    member(pretty, depth, "commits"@, decimal(n.commits as nat)) + seq![','] + member(
        pretty,
        depth,
        "additions"@,
        decimal(n.additions as nat),
    ) + seq![','] + member(pretty, depth, "deletions"@, decimal(n.deletions as nat)) + seq![',']
        + member(pretty, depth, "net_lines"@, signed_decimal(n.net_lines as int)) + seq![',']
        + member(pretty, depth, "files_changed"@, decimal(n.files_changed as nat))
}

/// The object of one period, as an element of the array `stats`.
pub open spec fn row_text(pretty: bool, row: RowView) -> Seq<char> {
    seq!['{'] + member(pretty, 3, "label"@, row.label) + seq![','] + member(
        pretty,
        3,
        "date"@,
        row.date,
    ) + seq![','] + numbers_members(pretty, 3, row.numbers) + gap(pretty, 2) + seq!['}']
}

/// The elements of the array `stats`: each after its gap, with commas
/// between them.
pub open spec fn rows_text(pretty: bool, rows: Seq<RowView>) -> Seq<char>
    decreases rows.len(),
{
    if rows.len() == 0 {
        Seq::empty()
    } else if rows.len() == 1 {
        gap(pretty, 2) + row_text(pretty, rows[0])
    } else {
        rows_text(pretty, rows.drop_last()) + seq![','] + gap(pretty, 2) + row_text(
            pretty,
            rows.last(),
        )
    }
}

/// The array `stats`: `[]` where there is no period.
pub open spec fn array_text(pretty: bool, rows: Seq<RowView>) -> Seq<char> {
    if rows.len() == 0 {
        seq!['[', ']']
    } else {
        seq!['['] + rows_text(pretty, rows) + gap(pretty, 1) + seq![']']
    }
}

/// The object `total`.
pub open spec fn total_text(pretty: bool, total: TotalStats) -> Seq<char> {
    seq!['{'] + numbers_members(pretty, 2, total) + gap(pretty, 1) + seq!['}']
}

/// The whole document.
pub open spec fn document_text(pretty: bool, doc: DocumentView) -> Seq<char> {
    seq!['{'] + member(pretty, 1, "repository"@, doc.repository) + seq![','] + member(
        pretty,
        1,
        "period"@,
        doc.period,
    ) + seq![','] + member(pretty, 1, "from"@, doc.from) + seq![','] + member(
        pretty,
        1,
        "to"@,
        doc.to,
    ) + seq![','] + member(pretty, 1, "stats"@, array_text(pretty, doc.rows)) + seq![',']
        + member(pretty, 1, "total"@, total_text(pretty, doc.total)) + gap(pretty, 0) + seq!['}']
}

/// The numbers of a period.
pub open spec fn period_numbers(stat: PeriodStats) -> TotalStats {
    TotalStats {
        commits: stat.commits,
        additions: stat.additions,
        deletions: stat.deletions,
        net_lines: stat.net_lines,
        files_changed: stat.files_changed,
    }
}

/// Whether a text can be written as a JSON string.
pub open spec fn quotable(text: Seq<char>) -> bool {
    json_quoted(text) is Some
}

/// Whether the label and the date of a period can be written as JSON
/// strings.
pub open spec fn row_quotable(stat: PeriodStats) -> bool {
    quotable(stat.label@) && quotable(calendar_text(stat.date@))
}

/// Whether an analysis can be written as JSON: each of its strings can, and
/// each of its dates in its written form.
pub open spec fn document_quotable(result: AnalysisResult) -> bool {
    &&& quotable(result.repository@)
    &&& quotable(result.period@)
    &&& quotable(calendar_text(result.from@))
    &&& quotable(calendar_text(result.to@))
    &&& forall|i: int| 0 <= i < result.stats@.len() ==> row_quotable(#[trigger] result.stats@[i])
}

/// One period with its label and its date as JSON strings.
pub open spec fn quoted_row(stat: PeriodStats) -> RowView {
    RowView {
        label: json_quoted(stat.label@)->0,
        date: json_quoted(calendar_text(stat.date@))->0,
        numbers: period_numbers(stat),
    }
}

/// The analysis with all its strings as JSON strings, dates in their
/// written form.
pub open spec fn quoted_document(result: AnalysisResult) -> DocumentView {
    DocumentView {
        repository: json_quoted(result.repository@)->0,
        period: json_quoted(result.period@)->0,
        from: json_quoted(calendar_text(result.from@))->0,
        to: json_quoted(calendar_text(result.to@))->0,
        rows: Seq::new(result.stats@.len(), |i: int| quoted_row(result.stats@[i])),
        total: result.total,
    }
}

/// The analysis as a JSON document.
pub open spec fn json_text(pretty: bool, result: AnalysisResult) -> Seq<char> {
    document_text(pretty, quoted_document(result))
}

/// One period, ready to be written.
#[derive(Debug)]
pub struct JsonRow {
    /// The label as a JSON string.
    pub label: String,
    /// The date as a JSON string.
    pub date: String,
    pub commits: u32,
    pub additions: u64,
    pub deletions: u64,
    pub net_lines: i64,
    pub files_changed: u32,
}

impl View for JsonRow {
    type V = RowView;

    open spec fn view(&self) -> RowView {
        RowView {
            label: self.label@,
            date: self.date@,
            numbers: TotalStats {
                commits: self.commits,
                additions: self.additions,
                deletions: self.deletions,
                net_lines: self.net_lines,
                files_changed: self.files_changed,
            },
        }
    }
}

/// A whole analysis, ready to be written: every string is a JSON string
/// already.
#[derive(Debug)]
pub struct JsonDocument {
    pub repository: String,
    pub period: String,
    pub from: String,
    pub to: String,
    pub rows: Vec<JsonRow>,
    pub total: TotalStats,
}

impl View for JsonDocument {
    type V = DocumentView;

    open spec fn view(&self) -> DocumentView {
        DocumentView {
            repository: self.repository@,
            period: self.period@,
            from: self.from@,
            to: self.to@,
            rows: Seq::new(self.rows@.len(), |i: int| self.rows@[i]@),
            total: self.total,
        }
    }
}

/// The gap before a member or an element.
fn gap_str(pretty: bool, depth: usize) -> (r: &'static str)
    requires
        depth <= 3,
    ensures
        r@ == gap(pretty, depth as nat),
{
    proof {
        reveal_strlit("");
        reveal_strlit("\n");
        reveal_strlit("\n  ");
        reveal_strlit("\n    ");
        reveal_strlit("\n      ");
    }
    let r = if !pretty {
        ""
    } else if depth == 0 {
        "\n"
    } else if depth == 1 {
        "\n  "
    } else if depth == 2 {
        "\n    "
    } else {
        "\n      "
    };
    assert(r@ =~= gap(pretty, depth as nat));
    r
}

/// What separates a key from its value.
fn colon_str(pretty: bool) -> (r: &'static str)
    ensures
        r@ == colon(pretty),
{
    proof {
        reveal_strlit(": ");
        reveal_strlit(":");
    }
    let r = if pretty {
        ": "
    } else {
        ":"
    };
    assert(r@ =~= colon(pretty));
    r
}

/// A member of an object.
fn member_string(pretty: bool, depth: usize, key: &str, value: &str) -> (r: String)
    requires
        depth <= 3,
    ensures
        r@ == member(pretty, depth as nat, key@, value@),
{
    proof {
        reveal_strlit("\"");
        assert("\""@ =~= seq!['"']);
    }
    let mut out = String::from_str(gap_str(pretty, depth));
    out.append("\"");
    out.append(key);
    out.append("\"");
    out.append(colon_str(pretty));
    out.append(value);
    out
}

/// The five members that hold numbers.
fn numbers_string(pretty: bool, depth: usize, n: &TotalStats) -> (r: String)
    requires
        depth <= 3,
    ensures
        r@ == numbers_members(pretty, depth as nat, *n),
{
    proof {
        reveal_strlit(",");
        assert(","@ =~= seq![',']);
    }
    let commits = decimal_string(n.commits as u64);
    let additions = decimal_string(n.additions);
    let deletions = decimal_string(n.deletions);
    let net_lines = signed_decimal_string(n.net_lines);
    let files_changed = decimal_string(n.files_changed as u64);
    let mut out = member_string(pretty, depth, "commits", commits.as_str());
    out.append(",");
    out.append(member_string(pretty, depth, "additions", additions.as_str()).as_str());
    out.append(",");
    out.append(member_string(pretty, depth, "deletions", deletions.as_str()).as_str());
    out.append(",");
    out.append(member_string(pretty, depth, "net_lines", net_lines.as_str()).as_str());
    out.append(",");
    out.append(member_string(pretty, depth, "files_changed", files_changed.as_str()).as_str());
    out
}

/// The object of one period.
fn row_string(pretty: bool, row: &JsonRow) -> (r: String)
    ensures
        r@ == row_text(pretty, row@),
{
    proof {
        reveal_strlit(",");
        reveal_strlit("{");
        reveal_strlit("}");
        assert(","@ =~= seq![',']);
        assert("{"@ =~= seq!['{']);
        assert("}"@ =~= seq!['}']);
    }
    let numbers = TotalStats {
        commits: row.commits,
        additions: row.additions,
        deletions: row.deletions,
        net_lines: row.net_lines,
        files_changed: row.files_changed,
    };
    assert(numbers == row@.numbers);
    let mut out = String::from_str("{");
    out.append(member_string(pretty, 3, "label", row.label.as_str()).as_str());
    out.append(",");
    out.append(member_string(pretty, 3, "date", row.date.as_str()).as_str());
    out.append(",");
    out.append(numbers_string(pretty, 3, &numbers).as_str());
    out.append(gap_str(pretty, 2));
    out.append("}");
    out
}

/// The array of all periods.
fn array_string(pretty: bool, rows: &Vec<JsonRow>) -> (r: String)
    ensures
        r@ == array_text(pretty, Seq::new(rows@.len(), |i: int| rows@[i]@)),
{
    proof {
        reveal_strlit(",");
        reveal_strlit("[");
        reveal_strlit("]");
        reveal_strlit("[]");
        assert(","@ =~= seq![',']);
        assert("["@ =~= seq!['[']);
        assert("]"@ =~= seq![']']);
        assert("[]"@ =~= seq!['[', ']']);
    }
    let ghost views = Seq::new(rows@.len(), |i: int| rows@[i]@);
    if rows.len() == 0 {
        return String::from_str("[]");
    }
    let mut inner = String::from_str(gap_str(pretty, 2));
    inner.append(row_string(pretty, &rows[0]).as_str());
    assert(views.take(1)[0] == rows@[0]@);
    let mut i: usize = 1;
    while i < rows.len()
        invariant
            1 <= i <= rows@.len(),
            views == Seq::new(rows@.len(), |i: int| rows@[i]@),
            ","@ == seq![','],
            inner@ == rows_text(pretty, views.take(i as int)),
        decreases rows@.len() - i,
    {
        proof {
            let done = views.take(i + 1);
            assert(done.drop_last() =~= views.take(i as int));
            assert(done.last() == rows@[i as int]@);
        }
        inner.append(",");
        inner.append(gap_str(pretty, 2));
        inner.append(row_string(pretty, &rows[i]).as_str());
        i = i + 1;
    }
    assert(views.take(i as int) =~= views);
    let mut out = String::from_str("[");
    out.append(inner.as_str());
    out.append(gap_str(pretty, 1));
    out.append("]");
    out
}

/// The object of the totals.
fn total_string(pretty: bool, total: &TotalStats) -> (r: String)
    ensures
        r@ == total_text(pretty, *total),
{
    proof {
        reveal_strlit("{");
        reveal_strlit("}");
        assert("{"@ =~= seq!['{']);
        assert("}"@ =~= seq!['}']);
    }
    let mut out = String::from_str("{");
    out.append(numbers_string(pretty, 2, total).as_str());
    out.append(gap_str(pretty, 1));
    out.append("}");
    out
}

impl JsonDocument {
    /// The document as text, indented if `pretty`.
    pub fn render(&self, pretty: bool) -> (out: String)
        ensures
            out@ == document_text(pretty, self@),
    {
        proof {
            reveal_strlit(",");
            reveal_strlit("{");
            reveal_strlit("}");
            assert(","@ =~= seq![',']);
            assert("{"@ =~= seq!['{']);
            assert("}"@ =~= seq!['}']);
        }
        let stats = array_string(pretty, &self.rows);
        let total = total_string(pretty, &self.total);
        let mut out = String::from_str("{");
        out.append(member_string(pretty, 1, "repository", self.repository.as_str()).as_str());
        out.append(",");
        out.append(member_string(pretty, 1, "period", self.period.as_str()).as_str());
        out.append(",");
        out.append(member_string(pretty, 1, "from", self.from.as_str()).as_str());
        out.append(",");
        out.append(member_string(pretty, 1, "to", self.to.as_str()).as_str());
        out.append(",");
        out.append(member_string(pretty, 1, "stats", stats.as_str()).as_str());
        out.append(",");
        out.append(member_string(pretty, 1, "total", total.as_str()).as_str());
        out.append(gap_str(pretty, 0));
        out.append("}");
        out
    }

    /// Prepares an analysis for writing: quotes its strings and writes out
    /// its dates. It succeeds exactly where every string can be quoted, and
    /// fails with the error of `serde_json` for the first that cannot.
    pub fn prepare(result: &AnalysisResult) -> (r: Result<JsonDocument, StatsError>)
        ensures
            r is Ok <==> document_quotable(*result),
            r matches Ok(doc) ==> doc@ == quoted_document(*result),
            r matches Err(e) ==> e is Json,
    {
        let repository = match quote(result.repository.as_str()) {
            Ok(text) => text,
            Err(e) => {
                return Err(StatsError::Json(e));
            },
        };
        let period = match quote(result.period.as_str()) {
            Ok(text) => text,
            Err(e) => {
                return Err(StatsError::Json(e));
            },
        };
        let from = match quote(result.from.to_string().as_str()) {
            Ok(text) => text,
            Err(e) => {
                return Err(StatsError::Json(e));
            },
        };
        let to = match quote(result.to.to_string().as_str()) {
            Ok(text) => text,
            Err(e) => {
                return Err(StatsError::Json(e));
            },
        };
        let mut rows: Vec<JsonRow> = Vec::new();
        let mut i: usize = 0;
        while i < result.stats.len()
            invariant
                i <= result.stats@.len(),
                rows@.len() == i,
                forall|k: int| 0 <= k < i ==> (#[trigger] rows@[k])@ == quoted_row(result.stats@[k]),
                forall|k: int| 0 <= k < i ==> row_quotable(#[trigger] result.stats@[k]),
            decreases result.stats@.len() - i,
        {
            let stat = &result.stats[i];
            assert(*stat == result.stats@[i as int]);
            let label = match quote(stat.label.as_str()) {
                Ok(text) => text,
                Err(e) => {
                    return Err(StatsError::Json(e));
                },
            };
            let date = match quote(stat.date.to_string().as_str()) {
                Ok(text) => text,
                Err(e) => {
                    return Err(StatsError::Json(e));
                },
            };
            rows.push(
                JsonRow {
                    label,
                    date,
                    commits: stat.commits,
                    additions: stat.additions,
                    deletions: stat.deletions,
                    net_lines: stat.net_lines,
                    files_changed: stat.files_changed,
                },
            );
            i = i + 1;
        }
        let doc = JsonDocument { repository, period, from, to, rows, total: result.total };
        assert(doc@.rows =~= quoted_document(*result).rows);
        Ok(doc)
    }
}

/// Export as a JSON document.
#[derive(Debug, Clone, Copy, PartialEq, Eq, Structural)]
pub struct JsonFormatter {
    /// Whether the document is indented.
    pub pretty: bool,
}

impl JsonFormatter {
    /// A formatter that indents the document.
    pub fn new() -> (r: JsonFormatter)
        ensures
            r.pretty,
    {
        JsonFormatter { pretty: true }
    }

    /// A formatter that writes the document without any blank or line end
    /// between its parts.
    pub fn compact() -> (r: JsonFormatter)
        ensures
            !r.pretty,
    {
        JsonFormatter { pretty: false }
    }
}

impl Default for JsonFormatter {
    fn default() -> (r: JsonFormatter)
        ensures
            r.pretty,
    {
        JsonFormatter::new()
    }
}

impl Formatter for JsonFormatter {
    /// The document of `result`. It succeeds exactly where every string of
    /// the analysis can be written as a JSON string, and fails with the
    /// error of `serde_json` where one cannot.
    fn format(&self, result: &AnalysisResult) -> (r: Result<String, StatsError>)
        ensures
            r is Ok <==> document_quotable(*result),
            r matches Ok(text) ==> text@ == json_text(self.pretty, *result),
            r matches Err(e) ==> e is Json,
    {
        match JsonDocument::prepare(result) {
            Ok(doc) => Ok(doc.render(self.pretty)),
            Err(e) => Err(e),
        }
    }
}

} // verus!
