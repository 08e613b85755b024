//! The open log: its filters, the paged listing, and the CSV export.
use vstd::prelude::*;
use crate::models::LogFilter;
use crate::sql::{
    copy_params, page_offset, page_size_within, page_window, param_values, where_clause, where_of,
    ParamValue, SqlParam,
};
use crate::text::{double_quotes, double_quotes_str, views};
use crate::videos::only_if;

verus! {

// ---------------------------------------------------------------------------
// Filters
// ---------------------------------------------------------------------------

/// A date bound applies when it is given and not empty.
pub open spec fn date_given(d: Option<String>) -> bool {
    d matches Some(s) && s@.len() > 0
}

/// The conditions of the log listing, in order: workspace, video, first
/// day, last day.
pub open spec fn log_clauses(f: LogFilter, workspace_id: Option<i64>) -> Seq<Seq<char>> {
    only_if(workspace_id is Some, seq!["v.workspace_id = ?"@]) + only_if(
        f.video_id is Some,
        seq!["l.video_id = ?"@],
    ) + only_if(date_given(f.start_date), seq!["date(l.open_time) >= date(?)"@]) + only_if(
        date_given(f.end_date),
        seq!["date(l.open_time) <= date(?)"@],
    )
}

/// The values bound to the conditions of the log listing, in order.
pub open spec fn log_params(f: LogFilter, workspace_id: Option<i64>) -> Seq<ParamValue> {
    only_if(workspace_id is Some, seq![ParamValue::Int(workspace_id->0)]) + only_if(
        f.video_id is Some,
        seq![ParamValue::Int(f.video_id->0)],
    ) + only_if(date_given(f.start_date), seq![ParamValue::Text(f.start_date->0@)]) + only_if(
        date_given(f.end_date),
        seq![ParamValue::Text(f.end_date->0@)],
    )
}

/// The `WHERE` part and the bound values of the log filters.
pub fn log_filter(f: &LogFilter, workspace_id: Option<i64>) -> (res: (String, Vec<SqlParam>))
    ensures
        res.0@ == where_of(log_clauses(*f, workspace_id)),
        param_values(res.1@) == log_params(*f, workspace_id),
{
    let ghost ff = *f;
    let mut clauses: Vec<String> = Vec::new();
    let mut params: Vec<SqlParam> = Vec::new();
    match workspace_id {
        Some(ws) => {
            clauses.push(String::from_str("v.workspace_id = ?"));
            params.push(SqlParam::Int(ws));
        },
        None => {},
    }
    match f.video_id {
        Some(vid) => {
            clauses.push(String::from_str("l.video_id = ?"));
            params.push(SqlParam::Int(vid));
        },
        None => {},
    }
    let ghost c2 = views(clauses@);
    let ghost p2 = param_values(params@);
    match &f.start_date {
        Some(sd) => {
            if !sd.as_str().is_empty() {
                clauses.push(String::from_str("date(l.open_time) >= date(?)"));
                params.push(SqlParam::Text(sd.clone()));
            }
        },
        None => {},
    }
    let ghost c3 = views(clauses@);
    let ghost p3 = param_values(params@);
    assert(c3 =~= c2 + only_if(date_given(ff.start_date), seq!["date(l.open_time) >= date(?)"@]));
    assert(p3 =~= p2 + only_if(
        date_given(ff.start_date),
        seq![ParamValue::Text(ff.start_date->0@)],
    ));
    match &f.end_date {
        Some(ed) => {
            if !ed.as_str().is_empty() {
                clauses.push(String::from_str("date(l.open_time) <= date(?)"));
                params.push(SqlParam::Text(ed.clone()));
            }
        },
        None => {},
    }
    assert(views(clauses@) =~= c3 + only_if(
        date_given(ff.end_date),
        seq!["date(l.open_time) <= date(?)"@],
    ));
    assert(param_values(params@) =~= p3 + only_if(
        date_given(ff.end_date),
        seq![ParamValue::Text(ff.end_date->0@)],
    ));
    assert(views(clauses@) =~= log_clauses(ff, workspace_id));
    assert(param_values(params@) =~= log_params(ff, workspace_id));
    let w = where_clause(&clauses);
    (w, params)
}

// ---------------------------------------------------------------------------
// Listing
// ---------------------------------------------------------------------------

/// The statements of one page of the log listing.
#[derive(Debug, Clone, PartialEq, Eq)]
pub struct LogListPlan {
    pub count_sql: String,
    pub count_params: Vec<SqlParam>,
    pub list_sql: String,
    pub list_params: Vec<SqlParam>,
}

/// The statement that counts the matching log entries, joined with their
/// video as the page is, so that the workspace condition applies.
pub open spec fn log_count_sql(f: LogFilter, workspace_id: Option<i64>) -> Seq<char> {
    "SELECT COUNT(*) FROM open_logs l JOIN videos v ON v.id = l.video_id "@ + where_of(
        log_clauses(f, workspace_id),
    )
}

/// The statement that reads one page of log entries, newest first, with
/// the name and path of their video.
pub open spec fn log_page_sql(f: LogFilter, workspace_id: Option<i64>) -> Seq<char> {
    "SELECT l.id, l.video_id, l.open_time, l.close_time, l.duration, l.status, v.file_name, v.file_path FROM open_logs l JOIN videos v ON v.id = l.video_id "@
        + where_of(log_clauses(f, workspace_id)) + " ORDER BY l.open_time DESC LIMIT ? OFFSET ?"@
}

/// The statements of one page of the log listing: at most 500 entries per
/// page, page numbers starting at 1. Both statements read the entries
/// joined with their video.
pub fn plan_log_list(f: &LogFilter, workspace_id: Option<i64>, page: u32, page_size: u32) -> (res:
    LogListPlan)
    requires
        page_offset(page, page_size, 500) <= u32::MAX,
    ensures
        res.count_sql@ == log_count_sql(*f, workspace_id),
        param_values(res.count_params@) == log_params(*f, workspace_id),
        res.list_sql@ == log_page_sql(*f, workspace_id),
        param_values(res.list_params@) == log_params(*f, workspace_id) + seq![
            ParamValue::Int(page_size_within(page_size, 500) as i64),
            ParamValue::Int(page_offset(page, page_size, 500) as i64),
        ],
{
    let (w, params) = log_filter(f, workspace_id);
    let mut count_sql = String::from_str(
        "SELECT COUNT(*) FROM open_logs l JOIN videos v ON v.id = l.video_id ",
    );
    count_sql.append(w.as_str());
    let (size, offset) = page_window(page, page_size, 500);
    let mut list_sql = String::from_str(
        "SELECT l.id, l.video_id, l.open_time, l.close_time, l.duration, l.status, v.file_name, v.file_path FROM open_logs l JOIN videos v ON v.id = l.video_id ",
    );
    list_sql.append(w.as_str());
    list_sql.append(" ORDER BY l.open_time DESC LIMIT ? OFFSET ?");
    let mut list_params = copy_params(&params);
    let ghost base = param_values(list_params@);
    list_params.push(SqlParam::Int(size as i64));
    list_params.push(SqlParam::Int(offset as i64));
    assert(param_values(list_params@) =~= base + seq![
        ParamValue::Int(size as i64),
        ParamValue::Int(offset as i64),
    ]);
    LogListPlan { count_sql, count_params: params, list_sql, list_params }
}

// ---------------------------------------------------------------------------
// CSV export
// ---------------------------------------------------------------------------

/// The statement that reads the entries to export, oldest first.
pub open spec fn log_export_sql(f: LogFilter, workspace_id: Option<i64>) -> Seq<char> {
    "SELECT v.file_name, v.file_path, l.open_time, l.close_time, l.duration, l.status FROM open_logs l JOIN videos v ON v.id = l.video_id "@
        + where_of(log_clauses(f, workspace_id)) + " ORDER BY l.open_time"@
}

/// The statement and values that read the entries to export.
pub fn plan_log_export(f: &LogFilter, workspace_id: Option<i64>) -> (res: (String, Vec<SqlParam>))
    ensures
        res.0@ == log_export_sql(*f, workspace_id),
        param_values(res.1@) == log_params(*f, workspace_id),
{
    let (w, params) = log_filter(f, workspace_id);
    let mut sql = String::from_str(
        "SELECT v.file_name, v.file_path, l.open_time, l.close_time, l.duration, l.status FROM open_logs l JOIN videos v ON v.id = l.video_id ",
    );
    sql.append(w.as_str());
    sql.append(" ORDER BY l.open_time");
    (sql, params)
}

/// One exported log entry. The watch time is already written with one
/// decimal, or absent.
#[derive(Debug, Clone, PartialEq, Eq)]
pub struct CsvRow {
    pub file_name: String,
    pub file_path: String,
    pub open_time: String,
    pub close_time: Option<String>,
    pub duration: Option<String>,
    pub status: String,
}

/// The header line of the export.
pub open spec fn csv_header() -> Seq<char> {
    "视频名,路径,打开时间,关闭时间,观看时长(秒),状态\n"@
}

/// An optional field, empty when absent.
pub open spec fn or_empty(o: Option<String>) -> Seq<char> {
    match o {
        Some(s) => s@,
        None => Seq::<char>::empty(),
    }
}

/// The line of one entry: the name and the path are quoted with their
/// quotes doubled; the other fields are written as they are.
pub open spec fn csv_line(r: CsvRow) -> Seq<char> {
    "\""@ + double_quotes(r.file_name@) + "\",\""@ + double_quotes(r.file_path@) + "\","@
        + r.open_time@ + ","@ + or_empty(r.close_time) + ","@ + or_empty(r.duration) + ","@
        + r.status@ + "\n"@
}

/// The lines of the entries, one after another.
pub open spec fn csv_lines(rows: Seq<CsvRow>) -> Seq<char>
    decreases rows.len(),
{
    if rows.len() == 0 {
        Seq::<char>::empty()
    } else {
        csv_lines(rows.drop_last()) + csv_line(rows.last())
    }
}

/// The text inside a quoted CSV field as a reader takes it: each pair of
/// double quotes stands for one.
pub open spec fn read_quoted(s: Seq<char>) -> Seq<char>
    decreases s.len(),
{
    if s.len() == 0 {
        Seq::<char>::empty()
    } else if s.len() >= 2 && s[0] == '"' && s[1] == '"' {
        seq!['"'] + read_quoted(s.subrange(2, s.len() as int))
    } else {
        seq![s[0]] + read_quoted(s.drop_first())
    }
}

/// Doubling the quotes of two pieces one after the other is doubling the
/// quotes of the whole.
proof fn lemma_double_quotes_concat(a: Seq<char>, b: Seq<char>)
    ensures
        double_quotes(a + b) == double_quotes(a) + double_quotes(b),
    decreases b.len(),
{
    if b.len() == 0 {
        assert(a + b =~= a);
        assert(double_quotes(a) + double_quotes(b) =~= double_quotes(a));
    } else {
        let b0 = b.drop_last();
        lemma_double_quotes_concat(a, b0);
        assert((a + b).drop_last() =~= a + b0);
        assert((a + b).last() == b.last());
        if b.last() == '"' {
            assert(double_quotes(a) + double_quotes(b0) + seq!['"', '"'] =~= double_quotes(a) + (
            double_quotes(b0) + seq!['"', '"']));
        } else {
            assert((double_quotes(a) + double_quotes(b0)).push(b.last()) =~= double_quotes(a) + (
            double_quotes(b0).push(b.last())));
        }
    }
}

/// A name or a path written into the export is read back unchanged: the
/// text between the quotes of its field, with each doubled quote taken as
/// one, is the text that was written.
pub proof fn law_csv_field_reads_back(s: Seq<char>)
    ensures
        read_quoted(double_quotes(s)) == s,
    decreases s.len(),
{
    if s.len() > 0 {
        let head = seq![s[0]];
        let rest = s.drop_first();
        assert(s =~= head + rest);
        lemma_double_quotes_concat(head, rest);
        assert(head.drop_last() =~= Seq::<char>::empty());
        assert(head.last() == s[0]);
        assert(double_quotes(head.drop_last()) =~= Seq::<char>::empty());
        law_csv_field_reads_back(rest);
        let d = double_quotes(s);
        if s[0] == '"' {
            assert(double_quotes(head) =~= seq!['"', '"']);
            assert(d.subrange(2, d.len() as int) =~= double_quotes(rest));
        } else {
            assert(double_quotes(head) =~= seq![s[0]]);
            assert(d.drop_first() =~= double_quotes(rest));
        }
        assert(read_quoted(d) =~= s);
    }
}

/// An optional string, or nothing.
fn text_or_empty(o: &Option<String>) -> (res: &str)
    ensures
        res@ == or_empty(*o),
{
    match o {
        Some(s) => s.as_str(),
        None => {
            proof {
                reveal_strlit("");
            }
            ""
        },
    }
}

/// Appends the line of one entry.
fn push_csv_line(out: &mut String, r: &CsvRow)
    ensures
        final(out)@ == old(out)@ + csv_line(*r),
{
    let name = double_quotes_str(r.file_name.as_str());
    let path = double_quotes_str(r.file_path.as_str());
    out.append("\"");
    out.append(name.as_str());
    out.append("\",\"");
    out.append(path.as_str());
    out.append("\",");
    out.append(r.open_time.as_str());
    out.append(",");
    out.append(text_or_empty(&r.close_time));
    out.append(",");
    out.append(text_or_empty(&r.duration));
    out.append(",");
    out.append(r.status.as_str());
    out.append("\n");
}

/// The CSV text of the export: the header line, then one line per entry.
pub fn export_csv(rows: &Vec<CsvRow>) -> (res: String)
    ensures
        res@ == csv_header() + csv_lines(rows@),
{
    let mut out = String::from_str("视频名,路径,打开时间,关闭时间,观看时长(秒),状态\n");
    let mut i: usize = 0;
    assert(rows@.take(0) =~= Seq::<CsvRow>::empty());
    while i < rows.len()
        invariant
            i <= rows@.len(),
            out@ == csv_header() + csv_lines(rows@.take(i as int)),
        decreases rows@.len() - i,
    {
        push_csv_line(&mut out, &rows[i]);
        assert(rows@.take(i + 1).drop_last() =~= rows@.take(i as int));
        assert(rows@.take(i + 1).last() == rows@[i as int]);
        i = i + 1;
    }
    assert(rows@.take(rows@.len() as int) =~= rows@);
    out
}

} // verus!
