use video_manager::sql::SqlParam;
use video_manager::stats::{
    plan_dashboard, plan_hourly_heatmap, plan_leaderboard, plan_tag_stats, plan_view_trend,
    ws_where,
};

#[test]
fn workspace_scope() {
    assert_eq!(ws_where(Some(3), "v"), ("v.workspace_id = ?".to_string(), vec![SqlParam::Int(3)]));
    assert_eq!(ws_where(None, "v"), (String::new(), vec![]));
}

#[test]
fn dashboard_statements() {
    let d = plan_dashboard(Some(4));
    assert_eq!(d.total_videos_sql, "SELECT COUNT(*) FROM videos v WHERE v.workspace_id = ?");
    assert_eq!(d.total_folders_sql, "SELECT COUNT(*) FROM folders f WHERE f.workspace_id = ?");
    assert_eq!(
        d.total_watch_seconds_sql,
        "SELECT COALESCE(SUM(l.duration), 0) FROM open_logs l JOIN videos v ON v.id = l.video_id AND v.workspace_id = ? WHERE l.status != 'active'"
    );
    assert_eq!(
        d.today_open_count_sql,
        "SELECT COUNT(*) FROM open_logs l JOIN videos v ON v.id = l.video_id AND v.workspace_id = ? WHERE date(l.open_time) = date('now','localtime')"
    );
    assert_eq!(d.params, vec![SqlParam::Int(4)]);
    let d = plan_dashboard(None);
    assert_eq!(d.total_file_size_sql, "SELECT COALESCE(SUM(v.file_size), 0) FROM videos v ");
    assert_eq!(d.total_folders_sql, "SELECT COUNT(*) FROM folders f ");
    assert!(d.params.is_empty());
}

#[test]
fn trend_statements() {
    let (sql, p) = plan_view_trend(None, "week");
    assert!(sql.starts_with("SELECT strftime('%Y-W%W', l.open_time) AS label"));
    assert!(sql.contains("l.open_time >= date('now','localtime','-77 days')  GROUP BY strftime('%Y-W%W', l.open_time) ORDER BY label ASC"));
    assert!(p.is_empty());
    let (sql, p) = plan_view_trend(Some(1), "month");
    assert!(sql.contains("'-11 months','start of month') AND v.workspace_id = ? GROUP BY strftime('%Y-%m', l.open_time)"));
    assert_eq!(p, vec![SqlParam::Int(1)]);
    let (sql, _) = plan_view_trend(None, "anything");
    assert!(sql.starts_with("SELECT date(l.open_time) AS label"));
    assert!(sql.contains("'-29 days')"));
}

#[test]
fn leaderboard_statements() {
    let (sql, p) = plan_leaderboard(None, "duration", 0);
    assert!(sql.contains("COALESCE(SUM(l.duration),0)"));
    assert!(sql.ends_with("GROUP BY v.id ORDER BY 4 DESC LIMIT ?"));
    assert_eq!(p, vec![SqlParam::Int(1)]);
    let (sql, p) = plan_leaderboard(Some(2), "recent", 1000);
    assert!(sql.contains("WHERE 1=1 AND v.workspace_id = ? GROUP BY v.id ORDER BY MAX(l.open_time) DESC LIMIT ?"));
    assert_eq!(p, vec![SqlParam::Int(2), SqlParam::Int(100)]);
    let (sql, p) = plan_leaderboard(None, "open", 10);
    assert_eq!(
        sql,
        "SELECT v.id, v.file_name, v.file_path, v.open_count, v.open_count, v.duration FROM videos v WHERE 1=1  ORDER BY v.open_count DESC LIMIT ?"
    );
    assert_eq!(p, vec![SqlParam::Int(10)]);
}

#[test]
fn tag_and_heatmap_statements() {
    let (sql, p) = plan_tag_stats(Some(6));
    assert!(sql.ends_with("WHERE 1=1 AND v.workspace_id = ? GROUP BY t.id ORDER BY cnt DESC, t.name"));
    assert_eq!(p, vec![SqlParam::Int(6)]);
    let (sql, p) = plan_hourly_heatmap(None);
    assert!(sql.starts_with("SELECT (CAST(strftime('%w', l.open_time) AS INTEGER) + 6) % 7 AS weekday"));
    assert!(sql.ends_with("WHERE 1=1  GROUP BY weekday, hour"));
    assert!(p.is_empty());
}
