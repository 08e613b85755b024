use rusqlite::types::Value;
use rusqlite::Connection;
use video_manager::logs::plan_log_list;
use video_manager::models::{LogFilter, VideoQuery};
use video_manager::sql::SqlParam;
use video_manager::stats::plan_dashboard;
use video_manager::videos::{distinct_tag_ids, plan_video_list};

fn values(params: &[SqlParam]) -> Vec<Value> {
    params
        .iter()
        .map(|p| match p {
            SqlParam::Int(i) => Value::Integer(*i),
            SqlParam::Text(s) => Value::Text(s.clone()),
        })
        .collect()
}

fn count(conn: &Connection, sql: &str, params: &[SqlParam]) -> i64 {
    conn.query_row(sql, rusqlite::params_from_iter(values(params)), |r| r.get(0)).unwrap()
}

fn query() -> VideoQuery {
    VideoQuery {
        workspace_id: None,
        folder_id: None,
        keyword: None,
        tag_ids: None,
        page: 1,
        page_size: 50,
        sort_by: None,
        sort_order: None,
    }
}

/// Two workspaces; in the first, root -> sub -> deep holding 2, 1 and 3
/// videos; the second has one folder and one video.
fn library() -> (Connection, i64, i64, i64, i64) {
    let conn = Connection::open_in_memory().unwrap();
    conn.execute_batch(
        "CREATE TABLE folders (id INTEGER PRIMARY KEY AUTOINCREMENT, parent_id INTEGER, workspace_id INTEGER, name TEXT, path TEXT);
         CREATE TABLE videos (id INTEGER PRIMARY KEY AUTOINCREMENT, folder_id INTEGER, workspace_id INTEGER, file_name TEXT, file_path TEXT, custom_title TEXT, notes TEXT);
         CREATE TABLE video_tags (video_id INTEGER, tag_id INTEGER, PRIMARY KEY (video_id, tag_id));
         CREATE TABLE open_logs (id INTEGER PRIMARY KEY AUTOINCREMENT, video_id INTEGER, open_time TEXT);
         INSERT INTO folders (id, parent_id, workspace_id, name, path) VALUES (1, NULL, 1, 'root', 'c:\\root');
         INSERT INTO folders (id, parent_id, workspace_id, name, path) VALUES (2, 1, 1, 'sub', 'c:\\root\\sub');
         INSERT INTO folders (id, parent_id, workspace_id, name, path) VALUES (3, 2, 1, 'deep', 'c:\\root\\sub\\deep');
         INSERT INTO folders (id, parent_id, workspace_id, name, path) VALUES (4, NULL, 2, 'other', 'd:\\other');
         INSERT INTO videos (id, folder_id, workspace_id, file_name, file_path) VALUES
            (1, 1, 1, 'r1.mp4', 'r1'), (2, 1, 1, 'r2.mp4', 'r2'), (3, 2, 1, 's1.mp4', 's1'),
            (4, 3, 1, 'd1.mp4', 'd1'), (5, 3, 1, 'd2.mp4', 'd2'), (6, 3, 1, 'd3.mp4', 'd3'),
            (7, 4, 2, 'o1.mp4', 'o1');
         INSERT INTO video_tags (video_id, tag_id) VALUES (1, 10), (1, 20), (2, 10), (3, 20), (7, 10), (7, 20);
         INSERT INTO open_logs (video_id, open_time) VALUES (1, '2024-01-01 10:00:00'), (3, '2024-01-02 10:00:00'), (7, '2024-01-03 10:00:00');",
    )
    .unwrap();
    (conn, 1, 2, 3, 1)
}

#[test]
fn folder_filter_includes_descendants() {
    let (conn, root, sub, deep, _) = library();
    for (folder, expected) in [(root, 6), (sub, 4), (deep, 3)] {
        let mut q = query();
        q.folder_id = Some(folder);
        let plan = plan_video_list(&q);
        assert_eq!(count(&conn, &plan.count_sql, &plan.count_params), expected);
    }
}

#[test]
fn tag_filter_requires_every_tag() {
    let (conn, _, _, _, ws) = library();
    let cases: [(Vec<i64>, Option<i64>, i64); 5] = [
        (vec![10, 20], None, 2),
        (vec![10, 20], Some(ws), 1),
        (vec![10], None, 3),
        (vec![20, 10, 20], None, 2),
        (vec![10, 30], None, 0),
    ];
    for (tags, workspace, expected) in cases {
        let mut q = query();
        q.tag_ids = Some(tags);
        q.workspace_id = workspace;
        let plan = plan_video_list(&q);
        assert_eq!(count(&conn, &plan.count_sql, &plan.count_params), expected);
    }
    assert_eq!(distinct_tag_ids(&vec![3, 1, 3, 2, 1]), vec![3, 1, 2]);
    assert!(distinct_tag_ids(&vec![]).is_empty());
}

#[test]
fn dashboard_folders_by_workspace() {
    let (conn, _, _, _, ws) = library();
    let d = plan_dashboard(Some(ws));
    assert_eq!(count(&conn, &d.total_folders_sql, &d.params), 3);
    assert_eq!(count(&conn, &d.total_videos_sql, &d.params), 6);
    let d = plan_dashboard(None);
    assert_eq!(count(&conn, &d.total_folders_sql, &d.params), 4);
}

#[test]
fn log_count_by_workspace() {
    let (conn, _, _, _, ws) = library();
    let f = LogFilter { video_id: None, start_date: None, end_date: None };
    let plan = plan_log_list(&f, Some(ws), 1, 50);
    assert_eq!(count(&conn, &plan.count_sql, &plan.count_params), 2);
    let plan = plan_log_list(&f, None, 1, 50);
    assert_eq!(count(&conn, &plan.count_sql, &plan.count_params), 3);
}
