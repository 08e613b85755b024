//! The statistics pages: dashboard totals, watch trend, leaderboards, tag
//! distribution and the weekly heat map. Each is a statement over the videos
//! and the open log, optionally limited to one workspace.
use vstd::prelude::*;
use crate::sql::{param_values, ParamValue, SqlParam};
use crate::text::str_eq;

verus! {

// ---------------------------------------------------------------------------
// Workspace scope
// ---------------------------------------------------------------------------

/// The workspace condition on `alias`, or nothing for all workspaces.
pub open spec fn ws_condition(workspace_id: Option<i64>, alias: Seq<char>) -> Seq<char> {
    match workspace_id {
        Some(_) => alias + ".workspace_id = ?"@,
        None => Seq::<char>::empty(),
    }
}

/// The value bound to the workspace condition, if any.
pub open spec fn ws_params(workspace_id: Option<i64>) -> Seq<ParamValue> {
    match workspace_id {
        Some(id) => seq![ParamValue::Int(id)],
        None => Seq::<ParamValue>::empty(),
    }
}

/// The workspace condition as a `WHERE` part.
pub open spec fn ws_where_part(workspace_id: Option<i64>) -> Seq<char> {
    match workspace_id {
        Some(_) => "WHERE v.workspace_id = ?"@,
        None => Seq::<char>::empty(),
    }
}

/// The workspace condition added to other conditions.
pub open spec fn ws_and_part(workspace_id: Option<i64>) -> Seq<char> {
    match workspace_id {
        Some(_) => "AND v.workspace_id = ?"@,
        None => Seq::<char>::empty(),
    }
}

/// The seconds watched over a group of log entries: the durations of its
/// closed entries summed, an entry still open counting 0.
pub open spec fn closed_seconds_sum() -> Seq<char> {
    "COALESCE(SUM(CASE WHEN l.status != 'active' THEN l.duration ELSE 0 END), 0)"@
}

/// The number of log entries in a group: every opening counts once,
/// repeated openings of one video included.
pub open spec fn openings_count() -> Seq<char> {
    "COUNT(*)"@
}

/// The hour of an entry's open time, from 0 to 23.
pub open spec fn open_hour() -> Seq<char> {
    "CAST(strftime('%H', l.open_time) AS INTEGER)"@
}

/// The weekday of an entry's open time, from 0 for Monday to 6 for Sunday.
pub open spec fn open_weekday() -> Seq<char> {
    "(CAST(strftime('%w', l.open_time) AS INTEGER) + 6) % 7"@
}

/// The condition that a log entry is closed.
pub open spec fn entry_closed() -> Seq<char> {
    "l.status != 'active'"@
}

/// The log entries joined with their videos.
pub open spec fn log_with_videos() -> Seq<char> {
    "FROM open_logs l JOIN videos v ON v.id = l.video_id"@
}

/// The condition and value that limit a statement to one workspace; both
/// empty when all workspaces are counted.
pub fn ws_where(workspace_id: Option<i64>, table_alias: &str) -> (res: (String, Vec<SqlParam>))
    ensures
        res.0@ == ws_condition(workspace_id, table_alias@),
        param_values(res.1@) == ws_params(workspace_id),
{
    let mut params: Vec<SqlParam> = Vec::new();
    match workspace_id {
        Some(id) => {
            let mut s = table_alias.to_owned();
            s.append(".workspace_id = ?");
            params.push(SqlParam::Int(id));
            assert(param_values(params@) =~= ws_params(workspace_id));
            (s, params)
        },
        None => {
            proof {
                reveal_strlit("");
            }
            assert(param_values(params@) =~= ws_params(workspace_id));
            (String::from_str(""), params)
        },
    }
}

/// The `WHERE v.workspace_id = ?` part, or nothing.
fn ws_where_str(workspace_id: Option<i64>) -> (res: &'static str)
    ensures
        res@ == ws_where_part(workspace_id),
{
    match workspace_id {
        Some(_) => "WHERE v.workspace_id = ?",
        None => {
            proof {
                reveal_strlit("");
            }
            ""
        },
    }
}

/// The `AND v.workspace_id = ?` part, or nothing.
fn ws_and_str(workspace_id: Option<i64>) -> (res: &'static str)
    ensures
        res@ == ws_and_part(workspace_id),
{
    match workspace_id {
        Some(_) => "AND v.workspace_id = ?",
        None => {
            proof {
                reveal_strlit("");
            }
            ""
        },
    }
}

/// The workspace parameter list.
fn ws_param_list(workspace_id: Option<i64>) -> (res: Vec<SqlParam>)
    ensures
        param_values(res@) == ws_params(workspace_id),
{
    let mut params: Vec<SqlParam> = Vec::new();
    match workspace_id {
        Some(id) => {
            params.push(SqlParam::Int(id));
        },
        None => {},
    }
    assert(param_values(params@) =~= ws_params(workspace_id));
    params
}

/// `a` followed by `b`.
fn cat2(a: &str, b: &str) -> (res: String)
    ensures
        res@ == a@ + b@,
{
    let mut s = a.to_owned();
    s.append(b);
    s
}

/// `a`, `b` and `c` joined.
fn cat3(a: &str, b: &str, c: &str) -> (res: String)
    ensures
        res@ == a@ + b@ + c@,
{
    let mut s = a.to_owned();
    s.append(b);
    s.append(c);
    s
}

// ---------------------------------------------------------------------------
// Dashboard
// ---------------------------------------------------------------------------

/// The statements of the dashboard totals. Every statement takes `params`.
#[derive(Debug, Clone, PartialEq, Eq)]
pub struct DashboardPlan {
    pub total_videos_sql: String,
    pub total_folders_sql: String,
    pub total_open_count_sql: String,
    pub total_watch_seconds_sql: String,
    pub total_file_size_sql: String,
    pub today_watch_seconds_sql: String,
    pub today_open_count_sql: String,
    pub params: Vec<SqlParam>,
}

/// The joins of the open log with its videos, limited to the workspace.
pub open spec fn log_join(workspace_id: Option<i64>) -> Seq<char> {
    "FROM open_logs l JOIN videos v ON v.id = l.video_id "@ + ws_and_part(workspace_id)
}

/// The folder count's workspace condition, or nothing.
pub open spec fn folder_where_part(workspace_id: Option<i64>) -> Seq<char> {
    match workspace_id {
        Some(_) => "WHERE f.workspace_id = ?"@,
        None => Seq::<char>::empty(),
    }
}

/// The `WHERE f.workspace_id = ?` part, or nothing.
fn folder_where_str(workspace_id: Option<i64>) -> (res: &'static str)
    ensures
        res@ == folder_where_part(workspace_id),
{
    match workspace_id {
        Some(_) => "WHERE f.workspace_id = ?",
        None => {
            proof {
                reveal_strlit("");
            }
            ""
        },
    }
}

/// The dashboard statements, each limited to the workspace when one is
/// given: number of videos, number of folders, times opened, seconds watched (closed entries only), total
/// file size, and seconds watched and times opened today.
pub fn plan_dashboard(workspace_id: Option<i64>) -> (res: DashboardPlan)
    ensures
        res.total_videos_sql@ == "SELECT COUNT(*) FROM videos v "@ + ws_where_part(workspace_id),
        res.total_folders_sql@ == "SELECT COUNT(*) FROM folders f "@ + folder_where_part(
            workspace_id,
        ),
        res.total_open_count_sql@ == "SELECT COALESCE(SUM(v.open_count), 0) FROM videos v "@
            + ws_where_part(workspace_id),
        res.total_watch_seconds_sql@ == "SELECT COALESCE(SUM(l.duration), 0) "@ + log_join(
            workspace_id,
        ) + " WHERE l.status != 'active'"@,
        res.total_file_size_sql@ == "SELECT COALESCE(SUM(v.file_size), 0) FROM videos v "@
            + ws_where_part(workspace_id),
        res.today_watch_seconds_sql@ == "SELECT COALESCE(SUM(l.duration), 0) "@ + log_join(
            workspace_id,
        ) + " WHERE l.status != 'active' AND date(l.open_time) = date('now','localtime')"@,
        res.today_open_count_sql@ == "SELECT COUNT(*) "@ + log_join(workspace_id)
            + " WHERE date(l.open_time) = date('now','localtime')"@,
        param_values(res.params@) == ws_params(workspace_id),
{
    let w = ws_where_str(workspace_id);
    let a = ws_and_str(workspace_id);
    let join_head = "FROM open_logs l JOIN videos v ON v.id = l.video_id ";
    let mut total_watch = String::from_str("SELECT COALESCE(SUM(l.duration), 0) ");
    total_watch.append(join_head);
    total_watch.append(a);
    total_watch.append(" WHERE l.status != 'active'");
    let mut today_watch = String::from_str("SELECT COALESCE(SUM(l.duration), 0) ");
    today_watch.append(join_head);
    today_watch.append(a);
    today_watch.append(" WHERE l.status != 'active' AND date(l.open_time) = date('now','localtime')");
    let mut today_open = String::from_str("SELECT COUNT(*) ");
    today_open.append(join_head);
    today_open.append(a);
    today_open.append(" WHERE date(l.open_time) = date('now','localtime')");
    DashboardPlan {
        total_videos_sql: cat2("SELECT COUNT(*) FROM videos v ", w),
        total_folders_sql: cat2("SELECT COUNT(*) FROM folders f ", folder_where_str(workspace_id)),
        total_open_count_sql: cat2("SELECT COALESCE(SUM(v.open_count), 0) FROM videos v ", w),
        total_watch_seconds_sql: total_watch,
        total_file_size_sql: cat2("SELECT COALESCE(SUM(v.file_size), 0) FROM videos v ", w),
        today_watch_seconds_sql: today_watch,
        today_open_count_sql: today_open,
        params: ws_param_list(workspace_id),
    }
}

// ---------------------------------------------------------------------------
// Trend
// ---------------------------------------------------------------------------

/// The period a trend point covers, and the first day of the trend: weeks
/// over the last 12 weeks, months over the last 12 months, and otherwise
/// days over the last 30 days.
pub open spec fn trend_period(range: Seq<char>) -> (Seq<char>, Seq<char>) {
    if range == "week"@ {
        ("strftime('%Y-W%W', l.open_time)"@, "date('now','localtime','-77 days')"@)
    } else if range == "month"@ {
        ("strftime('%Y-%m', l.open_time)"@, "date('now','localtime','-11 months','start of month')"@)
    } else {
        ("date(l.open_time)"@, "date('now','localtime','-29 days')"@)
    }
}

/// The trend statement: per period, the seconds watched (closed entries)
/// and the times opened, in period order.
pub open spec fn trend_sql(workspace_id: Option<i64>, range: Seq<char>) -> Seq<char> {
    let (period, start) = trend_period(range);
    "SELECT "@ + period
        + " AS label, COALESCE(SUM(CASE WHEN l.status != 'active' THEN l.duration ELSE 0 END), 0) AS secs, COUNT(*) AS cnt FROM open_logs l JOIN videos v ON v.id = l.video_id WHERE l.open_time >= "@
        + start + " "@ + ws_and_part(workspace_id) + " GROUP BY "@ + period
        + " ORDER BY label ASC"@
}

/// A trend point covers one period (day, week or month, by `range`) of
/// the trend's time span: its `secs` are the seconds watched in the closed
/// entries opened in it, and its `cnt` is the number of entries opened in
/// it, each opening counted; the points come in period order.
pub proof fn law_trend_counts_each_opening(workspace_id: Option<i64>, range: Seq<char>)
    ensures
        trend_sql(workspace_id, range) == "SELECT "@ + trend_period(range).0 + (" AS label, "@
            + closed_seconds_sum() + " AS secs, "@ + openings_count() + " AS cnt "@
            + log_with_videos() + " WHERE l.open_time >= "@) + trend_period(range).1 + " "@
            + ws_and_part(workspace_id) + " GROUP BY "@ + trend_period(range).0
            + " ORDER BY label ASC"@,
{
    reveal_strlit(" AS label, COALESCE(SUM(CASE WHEN l.status != 'active' THEN l.duration ELSE 0 END), 0) AS secs, COUNT(*) AS cnt FROM open_logs l JOIN videos v ON v.id = l.video_id WHERE l.open_time >= ");
    reveal_strlit(" AS label, ");
    reveal_strlit("COALESCE(SUM(CASE WHEN l.status != 'active' THEN l.duration ELSE 0 END), 0)");
    reveal_strlit(" AS secs, ");
    reveal_strlit("COUNT(*)");
    reveal_strlit(" AS cnt ");
    reveal_strlit("FROM open_logs l JOIN videos v ON v.id = l.video_id");
    reveal_strlit(" WHERE l.open_time >= ");
    assert(" AS label, COALESCE(SUM(CASE WHEN l.status != 'active' THEN l.duration ELSE 0 END), 0) AS secs, COUNT(*) AS cnt FROM open_logs l JOIN videos v ON v.id = l.video_id WHERE l.open_time >= "@
        =~= " AS label, "@ + closed_seconds_sum() + " AS secs, "@ + openings_count()
        + " AS cnt "@ + log_with_videos() + " WHERE l.open_time >= "@);
}

/// The trend statement and its values.
pub fn plan_view_trend(workspace_id: Option<i64>, range: &str) -> (res: (String, Vec<SqlParam>))
    ensures
        res.0@ == trend_sql(workspace_id, range@),
        param_values(res.1@) == ws_params(workspace_id),
{
    let (period, start): (&str, &str) = if str_eq(range, "week") {
        ("strftime('%Y-W%W', l.open_time)", "date('now','localtime','-77 days')")
    } else if str_eq(range, "month") {
        ("strftime('%Y-%m', l.open_time)", "date('now','localtime','-11 months','start of month')")
    } else {
        ("date(l.open_time)", "date('now','localtime','-29 days')")
    };
    let mut sql = String::from_str("SELECT ");
    sql.append(period);
    sql.append(
        " AS label, COALESCE(SUM(CASE WHEN l.status != 'active' THEN l.duration ELSE 0 END), 0) AS secs, COUNT(*) AS cnt FROM open_logs l JOIN videos v ON v.id = l.video_id WHERE l.open_time >= ",
    );
    sql.append(start);
    sql.append(" ");
    sql.append(ws_and_str(workspace_id));
    sql.append(" GROUP BY ");
    sql.append(period);
    sql.append(" ORDER BY label ASC");
    (sql, ws_param_list(workspace_id))
}

// ---------------------------------------------------------------------------
// Leaderboard
// ---------------------------------------------------------------------------

/// The number of leaderboard entries: `limit` clamped to `1..=100`.
pub open spec fn leaderboard_limit(limit: u32) -> int {
    if limit < 1 {
        1
    } else if limit > 100 {
        100
    } else {
        limit as int
    }
}

/// The leaderboard statement of a category: `duration` ranks by seconds
/// watched, `recent` by the last opening, anything else by times opened.
pub open spec fn leaderboard_sql(workspace_id: Option<i64>, category: Seq<char>) -> Seq<char> {
    if category == "duration"@ {
        "SELECT v.id, v.file_name, v.file_path, COALESCE(SUM(l.duration),0), v.open_count, v.duration FROM open_logs l JOIN videos v ON v.id = l.video_id WHERE l.status != 'active' "@
            + ws_and_part(workspace_id) + " GROUP BY v.id ORDER BY 4 DESC LIMIT ?"@
    } else if category == "recent"@ {
        "SELECT v.id, v.file_name, v.file_path, 0, v.open_count, v.duration FROM open_logs l JOIN videos v ON v.id = l.video_id WHERE 1=1 "@
            + ws_and_part(workspace_id) + " GROUP BY v.id ORDER BY MAX(l.open_time) DESC LIMIT ?"@
    } else {
        "SELECT v.id, v.file_name, v.file_path, v.open_count, v.open_count, v.duration FROM videos v WHERE 1=1 "@
            + ws_and_part(workspace_id) + " ORDER BY v.open_count DESC LIMIT ?"@
    }
}

/// The leaderboards rank videos of the workspace (all videos when none is
/// given): `duration` by the seconds watched, summed over each video's
/// closed entries (every video with a closed entry takes part); `recent` by
/// the latest opening; any other category by the times opened. The best
/// come first and at most the limit are listed.
pub proof fn law_leaderboard_ranks(workspace_id: Option<i64>, category: Seq<char>)
    ensures
        leaderboard_sql(workspace_id, "duration"@) == ("SELECT v.id, v.file_name, v.file_path, "@
            + "COALESCE(SUM(l.duration),0)"@ + ", v.open_count, v.duration "@ + log_with_videos()
            + " WHERE "@ + entry_closed() + " "@) + ws_and_part(workspace_id)
            + " GROUP BY v.id ORDER BY 4 DESC LIMIT ?"@,
        leaderboard_sql(workspace_id, "recent"@) == ("SELECT v.id, v.file_name, v.file_path, 0, v.open_count, v.duration "@
            + log_with_videos() + " WHERE 1=1 "@) + ws_and_part(workspace_id)
            + " GROUP BY v.id ORDER BY MAX(l.open_time) DESC LIMIT ?"@,
        category != "duration"@ && category != "recent"@ ==> leaderboard_sql(workspace_id, category)
            == "SELECT v.id, v.file_name, v.file_path, v.open_count, v.open_count, v.duration FROM videos v WHERE 1=1 "@
            + ws_and_part(workspace_id) + " ORDER BY v.open_count DESC LIMIT ?"@,
{
    reveal_strlit("duration");
    reveal_strlit("recent");
    reveal_strlit("SELECT v.id, v.file_name, v.file_path, COALESCE(SUM(l.duration),0), v.open_count, v.duration FROM open_logs l JOIN videos v ON v.id = l.video_id WHERE l.status != 'active' ");
    reveal_strlit("SELECT v.id, v.file_name, v.file_path, ");
    reveal_strlit("COALESCE(SUM(l.duration),0)");
    reveal_strlit(", v.open_count, v.duration ");
    reveal_strlit("FROM open_logs l JOIN videos v ON v.id = l.video_id");
    reveal_strlit(" WHERE ");
    reveal_strlit("l.status != 'active'");
    reveal_strlit(" ");
    reveal_strlit("SELECT v.id, v.file_name, v.file_path, 0, v.open_count, v.duration FROM open_logs l JOIN videos v ON v.id = l.video_id WHERE 1=1 ");
    reveal_strlit("SELECT v.id, v.file_name, v.file_path, 0, v.open_count, v.duration ");
    reveal_strlit(" WHERE 1=1 ");
    assert("SELECT v.id, v.file_name, v.file_path, COALESCE(SUM(l.duration),0), v.open_count, v.duration FROM open_logs l JOIN videos v ON v.id = l.video_id WHERE l.status != 'active' "@
        =~= "SELECT v.id, v.file_name, v.file_path, "@ + "COALESCE(SUM(l.duration),0)"@
        + ", v.open_count, v.duration "@ + log_with_videos() + " WHERE "@ + entry_closed() + " "@);
    assert("SELECT v.id, v.file_name, v.file_path, 0, v.open_count, v.duration FROM open_logs l JOIN videos v ON v.id = l.video_id WHERE 1=1 "@
        =~= "SELECT v.id, v.file_name, v.file_path, 0, v.open_count, v.duration "@ + log_with_videos()
        + " WHERE 1=1 "@);
    assert("recent"@ != "duration"@) by {
        assert("recent"@[0] != "duration"@[0]);
    }
}

/// The leaderboard statement and its values: the workspace, then the
/// number of entries.
pub fn plan_leaderboard(workspace_id: Option<i64>, category: &str, limit: u32) -> (res: (
    String,
    Vec<SqlParam>,
))
    ensures
        res.0@ == leaderboard_sql(workspace_id, category@),
        param_values(res.1@) == ws_params(workspace_id) + seq![
            ParamValue::Int(leaderboard_limit(limit) as i64),
        ],
{
    let lim: u32 = if limit < 1 {
        1
    } else if limit > 100 {
        100
    } else {
        limit
    };
    let a = ws_and_str(workspace_id);
    let sql = if str_eq(category, "duration") {
        cat3(
            "SELECT v.id, v.file_name, v.file_path, COALESCE(SUM(l.duration),0), v.open_count, v.duration FROM open_logs l JOIN videos v ON v.id = l.video_id WHERE l.status != 'active' ",
            a,
            " GROUP BY v.id ORDER BY 4 DESC LIMIT ?",
        )
    } else if str_eq(category, "recent") {
        cat3(
            "SELECT v.id, v.file_name, v.file_path, 0, v.open_count, v.duration FROM open_logs l JOIN videos v ON v.id = l.video_id WHERE 1=1 ",
            a,
            " GROUP BY v.id ORDER BY MAX(l.open_time) DESC LIMIT ?",
        )
    } else {
        cat3(
            "SELECT v.id, v.file_name, v.file_path, v.open_count, v.open_count, v.duration FROM videos v WHERE 1=1 ",
            a,
            " ORDER BY v.open_count DESC LIMIT ?",
        )
    };
    let mut params = ws_param_list(workspace_id);
    let ghost base = param_values(params@);
    params.push(SqlParam::Int(lim as i64));
    assert(param_values(params@) =~= base + seq![ParamValue::Int(lim as i64)]);
    (sql, params)
}

// ---------------------------------------------------------------------------
// Tags and heat map
// ---------------------------------------------------------------------------

/// The tag distribution statement: every tag with the number of its
/// videos, most used first, then by name.
pub open spec fn tag_stats_sql(workspace_id: Option<i64>) -> Seq<char> {
    "SELECT t.id, t.name, t.color, COUNT(vt.video_id) AS cnt FROM tags t LEFT JOIN video_tags vt ON vt.tag_id = t.id LEFT JOIN videos v ON v.id = vt.video_id WHERE 1=1 "@
        + ws_and_part(workspace_id) + " GROUP BY t.id ORDER BY cnt DESC, t.name"@
}

/// The tag distribution statement and its values.
pub fn plan_tag_stats(workspace_id: Option<i64>) -> (res: (String, Vec<SqlParam>))
    ensures
        res.0@ == tag_stats_sql(workspace_id),
        param_values(res.1@) == ws_params(workspace_id),
{
    let sql = cat3(
        "SELECT t.id, t.name, t.color, COUNT(vt.video_id) AS cnt FROM tags t LEFT JOIN video_tags vt ON vt.tag_id = t.id LEFT JOIN videos v ON v.id = vt.video_id WHERE 1=1 ",
        ws_and_str(workspace_id),
        " GROUP BY t.id ORDER BY cnt DESC, t.name",
    );
    (sql, ws_param_list(workspace_id))
}

/// The heat map statement: per weekday (0 is Monday) and hour, the times
/// opened and the seconds watched (closed entries).
pub open spec fn heatmap_sql(workspace_id: Option<i64>) -> Seq<char> {
    "SELECT (CAST(strftime('%w', l.open_time) AS INTEGER) + 6) % 7 AS weekday, CAST(strftime('%H', l.open_time) AS INTEGER) AS hour, COUNT(*) AS cnt, COALESCE(SUM(CASE WHEN l.status != 'active' THEN l.duration ELSE 0 END), 0) AS secs FROM open_logs l JOIN videos v ON v.id = l.video_id WHERE 1=1 "@
        + ws_and_part(workspace_id) + " GROUP BY weekday, hour"@
}

/// The heat map has one cell per weekday (0 for Monday to 6 for Sunday)
/// and hour (0 to 23) of the open times: its `cnt` is the number of entries
/// opened then, each opening counted, and its `secs` the seconds watched in
/// the closed ones.
pub proof fn law_heatmap_cells(workspace_id: Option<i64>)
    ensures
        heatmap_sql(workspace_id) == ("SELECT "@ + open_weekday() + " AS weekday, "@ + open_hour()
            + " AS hour, "@ + openings_count() + " AS cnt, "@ + closed_seconds_sum() + " AS secs "@
            + log_with_videos() + " WHERE 1=1 "@) + ws_and_part(workspace_id)
            + " GROUP BY weekday, hour"@,
{
    reveal_strlit("SELECT (CAST(strftime('%w', l.open_time) AS INTEGER) + 6) % 7 AS weekday, CAST(strftime('%H', l.open_time) AS INTEGER) AS hour, COUNT(*) AS cnt, COALESCE(SUM(CASE WHEN l.status != 'active' THEN l.duration ELSE 0 END), 0) AS secs FROM open_logs l JOIN videos v ON v.id = l.video_id WHERE 1=1 ");
    reveal_strlit("SELECT ");
    reveal_strlit("(CAST(strftime('%w', l.open_time) AS INTEGER) + 6) % 7");
    reveal_strlit(" AS weekday, ");
    reveal_strlit("CAST(strftime('%H', l.open_time) AS INTEGER)");
    reveal_strlit(" AS hour, ");
    reveal_strlit("COUNT(*)");
    reveal_strlit(" AS cnt, ");
    reveal_strlit("COALESCE(SUM(CASE WHEN l.status != 'active' THEN l.duration ELSE 0 END), 0)");
    reveal_strlit(" AS secs ");
    reveal_strlit("FROM open_logs l JOIN videos v ON v.id = l.video_id");
    reveal_strlit(" WHERE 1=1 ");
    assert("SELECT (CAST(strftime('%w', l.open_time) AS INTEGER) + 6) % 7 AS weekday, CAST(strftime('%H', l.open_time) AS INTEGER) AS hour, COUNT(*) AS cnt, COALESCE(SUM(CASE WHEN l.status != 'active' THEN l.duration ELSE 0 END), 0) AS secs FROM open_logs l JOIN videos v ON v.id = l.video_id WHERE 1=1 "@
        =~= "SELECT "@ + open_weekday() + " AS weekday, "@ + open_hour() + " AS hour, "@
        + openings_count() + " AS cnt, "@ + closed_seconds_sum() + " AS secs "@ + log_with_videos()
        + " WHERE 1=1 "@);
}

/// The heat map statement and its values.
pub fn plan_hourly_heatmap(workspace_id: Option<i64>) -> (res: (String, Vec<SqlParam>))
    ensures
        res.0@ == heatmap_sql(workspace_id),
        param_values(res.1@) == ws_params(workspace_id),
{
    let sql = cat3(
        "SELECT (CAST(strftime('%w', l.open_time) AS INTEGER) + 6) % 7 AS weekday, CAST(strftime('%H', l.open_time) AS INTEGER) AS hour, COUNT(*) AS cnt, COALESCE(SUM(CASE WHEN l.status != 'active' THEN l.duration ELSE 0 END), 0) AS secs FROM open_logs l JOIN videos v ON v.id = l.video_id WHERE 1=1 ",
        ws_and_str(workspace_id),
        " GROUP BY weekday, hour",
    );
    (sql, ws_param_list(workspace_id))
}

} // verus!
