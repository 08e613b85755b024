use rusqlite::{Connection, ToSql};
use video_manager::folders::{
    plan_children_query, plan_direct_counts_query, plan_parent_links_query, subtree_video_counts,
    subtree_video_counts_checked, DescendantCollector,
};
use video_manager::sql::SqlParam;

fn count_of(counts: &[(i64, i64)], id: i64) -> i64 {
    counts.iter().find(|(k, _)| *k == id).map(|(_, v)| *v).unwrap()
}

fn bind(ids: &[i64]) -> Vec<SqlParam> {
    ids.iter().map(|i| SqlParam::Int(*i)).collect()
}

fn setup() -> (Connection, i64) {
    let conn = Connection::open_in_memory().unwrap();
    conn.execute_batch(
        "CREATE TABLE folders (id INTEGER PRIMARY KEY AUTOINCREMENT, parent_id INTEGER, workspace_id INTEGER, name TEXT NOT NULL, path TEXT NOT NULL UNIQUE);
         CREATE TABLE videos (id INTEGER PRIMARY KEY AUTOINCREMENT, folder_id INTEGER NOT NULL, workspace_id INTEGER, file_name TEXT NOT NULL, file_path TEXT NOT NULL UNIQUE, file_size INTEGER NOT NULL);
         CREATE TABLE workspaces (id INTEGER PRIMARY KEY AUTOINCREMENT, name TEXT, path TEXT);",
    )
    .unwrap();
    conn.execute("INSERT INTO workspaces (name, path) VALUES ('w', 'C:\\w')", []).unwrap();
    let ws = conn.last_insert_rowid();
    (conn, ws)
}

fn insert_video(conn: &Connection, ws: i64, folder_id: i64, name: &str) {
    conn.execute(
        "INSERT INTO videos (folder_id, workspace_id, file_name, file_path, file_size)
         VALUES (?1, ?2, ?3, ?4, 10)",
        &[&folder_id as &dyn ToSql, &ws, &name, &format!("C:\\x\\{name}")][..],
    )
    .unwrap();
}

fn query_i64s(conn: &Connection, sql: &str, ids: &[i64]) -> Vec<i64> {
    let mut stmt = conn.prepare(sql).unwrap();
    let rows = stmt
        .query_map(rusqlite::params_from_iter(ids.iter()), |r| r.get::<_, i64>(0))
        .unwrap();
    rows.map(|r| r.unwrap()).collect()
}

/// Runs the whole count as the folder tree commands do: collect the
/// descendants level by level, read counts and links, then sum.
fn counts_from_db(conn: &Connection, roots: &[i64]) -> Vec<(i64, i64)> {
    let roots_v = roots.to_vec();
    let mut collector = DescendantCollector::new(&roots_v);
    loop {
        let sql = plan_children_query(&collector.frontier);
        let kids = query_i64s(conn, &sql, &collector.frontier);
        if !collector.absorb(kids) {
            break;
        }
    }
    let all = collector.all.clone();
    assert_eq!(bind(&all).len(), all.len());
    let mut stmt = conn.prepare(&plan_direct_counts_query(&all)).unwrap();
    let direct: Vec<(i64, i64)> = stmt
        .query_map(rusqlite::params_from_iter(all.iter()), |r| Ok((r.get(0)?, r.get(1)?)))
        .unwrap()
        .map(|r| r.unwrap())
        .collect();
    let mut stmt = conn.prepare(&plan_parent_links_query(&all)).unwrap();
    let edges: Vec<(i64, Option<i64>)> = stmt
        .query_map(rusqlite::params_from_iter(all.iter()), |r| Ok((r.get(0)?, r.get(1)?)))
        .unwrap()
        .map(|r| r.unwrap())
        .collect();
    subtree_video_counts(&roots_v, &edges, &direct)
}

#[test]
fn subtree_video_counts_includes_descendants() {
    let (conn, ws) = setup();
    conn.execute(
        "INSERT INTO folders (parent_id, workspace_id, name, path) VALUES (NULL, ?1, 'root', 'C:\\root')",
        &[&ws as &dyn ToSql][..],
    )
    .unwrap();
    let root = conn.last_insert_rowid();
    conn.execute(
        "INSERT INTO folders (parent_id, workspace_id, name, path) VALUES (?1, ?2, 'sub', 'C:\\root\\sub')",
        &[&root as &dyn ToSql, &ws][..],
    )
    .unwrap();
    let sub = conn.last_insert_rowid();
    conn.execute(
        "INSERT INTO folders (parent_id, workspace_id, name, path) VALUES (?1, ?2, 'deep', 'C:\\root\\sub\\deep')",
        &[&sub as &dyn ToSql, &ws][..],
    )
    .unwrap();
    let deep = conn.last_insert_rowid();

    insert_video(&conn, ws, root, "r1.mp4");
    insert_video(&conn, ws, root, "r2.mp4");
    insert_video(&conn, ws, sub, "s1.mp4");
    insert_video(&conn, ws, deep, "d1.mp4");
    insert_video(&conn, ws, deep, "d2.mp4");
    insert_video(&conn, ws, deep, "d3.mp4");

    let counts = counts_from_db(&conn, &[root, sub, deep]);
    assert_eq!(count_of(&counts, root), 6, "根应含全部 6 个视频");
    assert_eq!(count_of(&counts, sub), 4, "子应含自身+孙 4 个视频");
    assert_eq!(count_of(&counts, deep), 3, "孙应含自身 3 个视频");

    let cnt: i64 = conn
        .query_row(
            "SELECT COUNT(*) FROM videos v WHERE v.folder_id IN (
                WITH RECURSIVE subq(id) AS (
                    SELECT ?1 UNION ALL
                    SELECT c.id FROM folders c JOIN subq ON c.parent_id = subq.id
                )
                SELECT id FROM subq
            )",
            &[&sub as &dyn ToSql][..],
            |r| r.get(0),
        )
        .unwrap();
    assert_eq!(cnt, 4, "递归过滤应返回子目录树全部视频");
}

#[test]
fn subtree_counts_from_rows() {
    let edges = vec![(1, None), (2, Some(1)), (3, Some(2)), (4, Some(1))];
    let direct = vec![(1, 2), (2, 1), (3, 3), (4, 5)];
    let counts = subtree_video_counts(&vec![1, 2, 3, 4, 9], &edges, &direct);
    assert_eq!(counts, vec![(1, 11), (2, 4), (3, 3), (4, 5), (9, 0)]);
}

#[test]
fn subtree_counts_last_direct_entry_wins() {
    let edges = vec![(1, None)];
    let direct = vec![(1, 2), (1, 7)];
    assert_eq!(subtree_video_counts(&vec![1], &edges, &direct), vec![(1, 7)]);
}

#[test]
fn subtree_counts_of_no_folders() {
    let counts = subtree_video_counts(&vec![], &vec![], &vec![]);
    assert!(counts.is_empty());
}

#[test]
fn collector_gathers_levels() {
    let mut c = DescendantCollector::new(&vec![1, 2]);
    assert_eq!(c.all, vec![1, 2]);
    assert!(c.absorb(vec![3, 4]));
    assert_eq!(c.frontier, vec![3, 4]);
    assert!(c.absorb(vec![5]));
    assert!(!c.absorb(vec![]));
    assert_eq!(c.all, vec![1, 2, 3, 4, 5]);
    assert_eq!(c.frontier, vec![5]);
}

#[test]
fn folder_statements() {
    assert_eq!(
        plan_children_query(&vec![1, 2, 3]),
        "SELECT id FROM folders WHERE parent_id IN (?,?,?)"
    );
    assert_eq!(
        plan_direct_counts_query(&vec![4]),
        "SELECT folder_id, COUNT(*) FROM videos WHERE folder_id IN (?) GROUP BY folder_id"
    );
    assert_eq!(
        plan_parent_links_query(&vec![4, 5]),
        "SELECT id, parent_id FROM folders WHERE id IN (?,?)"
    );
}

#[test]
fn checked_subtree_counts() {
    let edges = vec![(1, None), (2, Some(1)), (3, Some(2)), (4, Some(1))];
    let direct = vec![(1, 2), (2, 1), (3, 3), (4, 5)];
    assert_eq!(
        subtree_video_counts_checked(&vec![1, 2, 9], &edges, &direct),
        Some(vec![(1, 11), (2, 4), (9, 0)])
    );
    assert_eq!(subtree_video_counts_checked(&vec![1], &edges, &vec![(2, -1)]), None);
    let big = vec![(1, i64::MAX), (2, 1)];
    assert_eq!(subtree_video_counts_checked(&vec![1], &edges, &big), None);
    assert_eq!(subtree_video_counts_checked(&vec![2], &edges, &big), Some(vec![(2, 1)]));
}
