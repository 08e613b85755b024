use video_manager::models::{Tag, VideoQuery};
use video_manager::sql::SqlParam;
use video_manager::videos::{
    choose_player, first_occurrences, group_tags_by_video, plan_search, plan_video_list,
    plan_video_tags, sort_column, sort_order, video_columns_str, video_filter,
};

fn query() -> VideoQuery {
    VideoQuery {
        workspace_id: None,
        folder_id: None,
        keyword: None,
        tag_ids: None,
        page: 1,
        page_size: 50,
        sort_by: None,
        sort_order: None,
    }
}

#[test]
fn sort_columns() {
    assert_eq!(sort_column(Some("name")), "v.file_name");
    assert_eq!(sort_column(Some("size")), "v.file_size");
    assert_eq!(sort_column(Some("duration")), "v.duration");
    assert_eq!(sort_column(Some("open_count")), "v.open_count");
    assert_eq!(sort_column(Some("modified_at")), "v.modified_at");
    assert_eq!(sort_column(Some("NAME")), "v.scanned_at");
    assert_eq!(sort_column(None), "v.scanned_at");
    assert_eq!(sort_order(Some("asc")), "ASC");
    assert_eq!(sort_order(Some("ASC")), "DESC");
    assert_eq!(sort_order(None), "DESC");
}

#[test]
fn no_filters_no_where() {
    let (w, p) = video_filter(&query());
    assert_eq!(w, "");
    assert!(p.is_empty());
}

#[test]
fn all_filters() {
    let mut q = query();
    q.workspace_id = Some(5);
    q.folder_id = Some(3);
    q.keyword = Some("  demo ".to_string());
    q.tag_ids = Some(vec![1, 2, 1]);
    let (w, p) = video_filter(&q);
    assert_eq!(
        w,
        "WHERE v.workspace_id = ? AND v.folder_id IN (WITH RECURSIVE subq(id) AS (SELECT ? UNION ALL SELECT c.id FROM folders c JOIN subq ON c.parent_id = subq.id) SELECT id FROM subq) AND (v.file_name LIKE ? OR v.file_path LIKE ? OR v.custom_title LIKE ? OR v.notes LIKE ?) AND v.id IN (SELECT video_id FROM video_tags WHERE tag_id IN (?,?) GROUP BY video_id HAVING COUNT(DISTINCT tag_id) = ?)"
    );
    let like = SqlParam::Text("%demo%".to_string());
    assert_eq!(
        p,
        vec![
            SqlParam::Int(5),
            SqlParam::Int(3),
            like.clone(),
            like.clone(),
            like.clone(),
            like,
            SqlParam::Int(1),
            SqlParam::Int(2),
            SqlParam::Int(2)
        ]
    );
}

#[test]
fn blank_keyword_and_empty_tags_are_ignored() {
    let mut q = query();
    q.keyword = Some("   ".to_string());
    q.tag_ids = Some(vec![]);
    q.folder_id = Some(8);
    let (w, p) = video_filter(&q);
    assert_eq!(w, "WHERE v.folder_id IN (WITH RECURSIVE subq(id) AS (SELECT ? UNION ALL SELECT c.id FROM folders c JOIN subq ON c.parent_id = subq.id) SELECT id FROM subq)");
    assert_eq!(p, vec![SqlParam::Int(8)]);
}

#[test]
fn list_plan_pages() {
    let mut q = query();
    q.workspace_id = Some(2);
    q.page = 3;
    q.page_size = 500;
    q.sort_by = Some("size".to_string());
    q.sort_order = Some("asc".to_string());
    let plan = plan_video_list(&q);
    assert_eq!(plan.count_sql, "SELECT COUNT(*) FROM videos v WHERE v.workspace_id = ?");
    assert_eq!(plan.count_params, vec![SqlParam::Int(2)]);
    assert_eq!(
        plan.list_sql,
        format!(
            "SELECT {} FROM videos v WHERE v.workspace_id = ? ORDER BY v.file_size ASC LIMIT ? OFFSET ?",
            video_columns_str()
        )
    );
    assert_eq!(plan.list_params, vec![SqlParam::Int(2), SqlParam::Int(200), SqlParam::Int(400)]);
}

#[test]
fn list_plan_first_page_defaults() {
    let mut q = query();
    q.page = 0;
    q.page_size = 0;
    let plan = plan_video_list(&q);
    assert_eq!(plan.list_params, vec![SqlParam::Int(1), SqlParam::Int(0)]);
    assert!(plan.list_sql.ends_with("ORDER BY v.scanned_at DESC LIMIT ? OFFSET ?"));
}

#[test]
fn search_plans() {
    assert!(plan_search("   ", 10).is_none());
    let (sql, params) = plan_search(" cat ", 900).unwrap();
    assert!(sql.starts_with("SELECT DISTINCT v.id, v.folder_id"));
    assert!(sql.ends_with("ORDER BY v.open_count DESC LIMIT ?6"));
    let like = SqlParam::Text("%cat%".to_string());
    assert_eq!(params, vec![like.clone(), like.clone(), like.clone(), like.clone(), like, SqlParam::Int(500)]);
    let (_, params) = plan_search("x", 20).unwrap();
    assert_eq!(params[5], SqlParam::Int(20));
}

#[test]
fn duplicates_keep_first_row() {
    assert_eq!(first_occurrences(&vec![3, 1, 3, 2, 1]), vec![true, true, false, true, false]);
    assert!(first_occurrences(&vec![]).is_empty());
}

fn tag(id: i64, name: &str) -> Tag {
    Tag { id, group_id: None, name: name.to_string(), color: "#1890ff".to_string() }
}

#[test]
fn tags_grouped_per_video() {
    let rows = vec![(2, tag(1, "a")), (1, tag(2, "b")), (2, tag(3, "c")), (9, tag(4, "d"))];
    let grouped = group_tags_by_video(&vec![1, 2, 5, 2], &rows);
    assert_eq!(grouped.len(), 4);
    assert_eq!(grouped[0], vec![tag(2, "b")]);
    assert_eq!(grouped[1], vec![tag(1, "a"), tag(3, "c")]);
    assert!(grouped[2].is_empty());
    assert!(grouped[3].is_empty());
}

#[test]
fn video_tags_statement() {
    let (sql, params) = plan_video_tags(&vec![4, 6]);
    assert_eq!(
        sql,
        "SELECT vt.video_id, t.id, t.group_id, t.name, t.color FROM video_tags vt JOIN tags t ON t.id = vt.tag_id WHERE vt.video_id IN (?,?) ORDER BY t.name"
    );
    assert_eq!(params, vec![SqlParam::Int(4), SqlParam::Int(6)]);
}

#[test]
fn player_choice() {
    assert_eq!(choose_player(Some("vlc".to_string()), Some("mpv".to_string())), Some("vlc".to_string()));
    assert_eq!(choose_player(Some("  ".to_string()), Some("mpv".to_string())), Some("mpv".to_string()));
    assert_eq!(choose_player(None, Some("".to_string())), Some("".to_string()));
    assert_eq!(choose_player(None, None), None);
    assert_eq!(choose_player(Some(" vlc ".to_string()), None), Some(" vlc ".to_string()));
}
