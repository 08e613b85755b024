//! The video listing and search: their filters, order and paging, the
//! removal of duplicate rows, the grouping of tags per video, and the choice
//! of the player that opens a video.
use vstd::prelude::*;
use crate::models::{Tag, VideoQuery};
use crate::sql::{
    copy_params, page_offset, page_size_within, page_window, param_values, placeholder_list,
    placeholders, where_clause, where_of, ParamValue, SqlParam,
};
use crate::text::{join, str_eq, trim, trim_str, views};

verus! {

/// The columns of a video row, in the order the rows are read.
pub open spec fn video_columns() -> Seq<char> {
    "v.id, v.folder_id, v.file_name, v.file_path, v.file_size, v.duration, v.width, v.height, v.codec, v.fps, v.sample_rate, v.cover_path, v.custom_title, v.notes, v.open_count, v.file_hash, v.created_at, v.modified_at, v.scanned_at"@
}

/// The columns of a video row.
pub fn video_columns_str() -> (res: &'static str)
    ensures
        res@ == video_columns(),
{
    "v.id, v.folder_id, v.file_name, v.file_path, v.file_size, v.duration, v.width, v.height, v.codec, v.fps, v.sample_rate, v.cover_path, v.custom_title, v.notes, v.open_count, v.file_hash, v.created_at, v.modified_at, v.scanned_at"
}

/// The columns a video row is read by, position by position: the id, the
/// folder, the file name and path, the size in bytes, the duration, the
/// width (position 6), the height (position 7), the codec, the frame rate,
/// the sample rate, the cover, the custom title, the notes, the times
/// opened, the file hash, and the creation, modification and scan times.
pub open spec fn video_row_columns() -> Seq<Seq<char>> {
    seq![
        "v.id"@,
        "v.folder_id"@,
        "v.file_name"@,
        "v.file_path"@,
        "v.file_size"@,
        "v.duration"@,
        "v.width"@,
        "v.height"@,
        "v.codec"@,
        "v.fps"@,
        "v.sample_rate"@,
        "v.cover_path"@,
        "v.custom_title"@,
        "v.notes"@,
        "v.open_count"@,
        "v.file_hash"@,
        "v.created_at"@,
        "v.modified_at"@,
        "v.scanned_at"@,
    ]
}

/// Every video row of the listing, the search and the detail lists its
/// columns in the order of `video_row_columns`, separated by commas: column
/// 6 is the width and column 7 the height.
pub proof fn law_video_row_columns()
    ensures
        video_columns() == join(video_row_columns(), ", "@),
        video_row_columns().len() == 19,
        video_row_columns()[6] == "v.width"@,
        video_row_columns()[7] == "v.height"@,
{
    reveal_strlit("v.id, v.folder_id, v.file_name, v.file_path, v.file_size, v.duration, v.width, v.height, v.codec, v.fps, v.sample_rate, v.cover_path, v.custom_title, v.notes, v.open_count, v.file_hash, v.created_at, v.modified_at, v.scanned_at");
    reveal_strlit(", ");
    reveal_strlit("v.id");
    reveal_strlit("v.folder_id");
    reveal_strlit("v.file_name");
    reveal_strlit("v.file_path");
    reveal_strlit("v.file_size");
    reveal_strlit("v.duration");
    reveal_strlit("v.width");
    reveal_strlit("v.height");
    reveal_strlit("v.codec");
    reveal_strlit("v.fps");
    reveal_strlit("v.sample_rate");
    reveal_strlit("v.cover_path");
    reveal_strlit("v.custom_title");
    reveal_strlit("v.notes");
    reveal_strlit("v.open_count");
    reveal_strlit("v.file_hash");
    reveal_strlit("v.created_at");
    reveal_strlit("v.modified_at");
    reveal_strlit("v.scanned_at");
    reveal_with_fuel(join, 20);
    let c = video_row_columns();
    assert(join(c, ", "@) =~= video_columns());
}

// ---------------------------------------------------------------------------
// Order
// ---------------------------------------------------------------------------

/// The column the listing is sorted by.
pub open spec fn sort_column_of(sort_by: Option<Seq<char>>) -> Seq<char> {
    match sort_by {
        Some(s) => if s == "name"@ {
            "v.file_name"@
        } else if s == "size"@ {
            "v.file_size"@
        } else if s == "duration"@ {
            "v.duration"@
        } else if s == "open_count"@ {
            "v.open_count"@
        } else if s == "modified_at"@ {
            "v.modified_at"@
        } else {
            "v.scanned_at"@
        },
        None => "v.scanned_at"@,
    }
}

/// The direction of the listing's order: ascending only when asked for.
pub open spec fn sort_order_of(order: Option<Seq<char>>) -> Seq<char> {
    match order {
        Some(s) => if s == "asc"@ {
            "ASC"@
        } else {
            "DESC"@
        },
        None => "DESC"@,
    }
}

/// The view of an optional string slice.
pub open spec fn opt_view(o: Option<&str>) -> Option<Seq<char>> {
    match o {
        Some(s) => Some(s@),
        None => None,
    }
}

/// The view of an optional string.
pub open spec fn opt_string_view(o: Option<String>) -> Option<Seq<char>> {
    match o {
        Some(s) => Some(s@),
        None => None,
    }
}

/// The column for a `sort_by` value: `name`, `size`, `duration`,
/// `open_count` or `modified_at`; anything else sorts by scan time.
pub fn sort_column(sort_by: Option<&str>) -> (res: &'static str)
    ensures
        res@ == sort_column_of(opt_view(sort_by)),
{
    match sort_by {
        Some(s) => {
            if str_eq(s, "name") {
                "v.file_name"
            } else if str_eq(s, "size") {
                "v.file_size"
            } else if str_eq(s, "duration") {
                "v.duration"
            } else if str_eq(s, "open_count") {
                "v.open_count"
            } else if str_eq(s, "modified_at") {
                "v.modified_at"
            } else {
                "v.scanned_at"
            }
        },
        None => "v.scanned_at",
    }
}

/// `ASC` for `asc`, otherwise `DESC`.
pub fn sort_order(order: Option<&str>) -> (res: &'static str)
    ensures
        res@ == sort_order_of(opt_view(order)),
{
    match order {
        Some(s) => {
            if str_eq(s, "asc") {
                "ASC"
            } else {
                "DESC"
            }
        },
        None => "DESC",
    }
}

/// An optional string as an optional slice.
fn as_opt_str(o: &Option<String>) -> (res: Option<&str>)
    ensures
        opt_view(res) == opt_string_view(*o),
{
    match o {
        Some(s) => Some(s.as_str()),
        None => None,
    }
}

// ---------------------------------------------------------------------------
// Filters
// ---------------------------------------------------------------------------

/// The keyword condition: the keyword is looked for in the file name, the
/// path, the custom title and the notes.
pub open spec fn keyword_clause() -> Seq<char> {
    "(v.file_name LIKE ? OR v.file_path LIKE ? OR v.custom_title LIKE ? OR v.notes LIKE ?)"@
}

/// The folder condition: the video lies in the chosen folder or in one of
/// its descendant folders.
pub open spec fn folder_clause() -> Seq<char> {
    "v.folder_id IN (WITH RECURSIVE subq(id) AS (SELECT ? UNION ALL SELECT c.id FROM folders c JOIN subq ON c.parent_id = subq.id) SELECT id FROM subq)"@
}

/// The tag condition for `n` different tags: the video carries every one of
/// them (among its links to the listed tags, `n` different tags occur).
pub open spec fn tag_clause(n: nat) -> Seq<char> {
    "v.id IN (SELECT video_id FROM video_tags WHERE tag_id IN ("@ + placeholders(n)
        + ") GROUP BY video_id HAVING COUNT(DISTINCT tag_id) = ?)"@
}

/// The ids of `s` without repetitions, each where it first occurs.
pub open spec fn distinct_ids(s: Seq<i64>) -> Seq<i64>
    decreases s.len(),
{
    if s.len() == 0 {
        Seq::<i64>::empty()
    } else {
        let d = distinct_ids(s.drop_last());
        if d.contains(s.last()) {
            d
        } else {
            d.push(s.last())
        }
    }
}

/// The values bound to the tag condition: the different tags, then how many
/// there are.
pub open spec fn tag_params(tags: Seq<i64>) -> Seq<ParamValue> {
    let d = distinct_ids(tags);
    Seq::new(d.len(), |i: int| ParamValue::Int(d[i])) + seq![ParamValue::Int(d.len() as i64)]
}

/// The tag filter keeps exactly the selected tags, each once: a video
/// passes it when it carries every selected tag.
pub proof fn law_tag_filter_counts_each_tag_once(tags: Seq<i64>)
    ensures
        forall|x: i64| distinct_ids(tags).contains(x) <==> tags.contains(x),
        forall|i: int, j: int|
            0 <= i < j < distinct_ids(tags).len() ==> distinct_ids(tags)[i] != distinct_ids(
                tags,
            )[j],
        tags.len() > 0 ==> distinct_ids(tags).len() > 0,
    decreases tags.len(),
{
    if tags.len() > 0 {
        let init = tags.drop_last();
        law_tag_filter_counts_each_tag_once(init);
        let d = distinct_ids(init);
        let last = tags.last();
        assert forall|x: i64| tags.contains(x) <==> (init.contains(x) || x == last) by {
            if tags.contains(x) {
                let k = choose|k: int| 0 <= k < tags.len() && tags[k] == x;
                if k < tags.len() - 1 {
                    assert(init[k] == x);
                }
            }
            if init.contains(x) {
                let k = choose|k: int| 0 <= k < init.len() && init[k] == x;
                assert(tags[k] == x);
            }
            if x == last {
                assert(tags[tags.len() - 1] == x);
            }
        }
        if !d.contains(last) {
            let e = d.push(last);
            assert forall|x: i64| e.contains(x) <==> (d.contains(x) || x == last) by {
                if e.contains(x) {
                    let k = choose|k: int| 0 <= k < e.len() && e[k] == x;
                    if k < d.len() {
                        assert(d[k] == x);
                    }
                }
                if d.contains(x) {
                    let k = choose|k: int| 0 <= k < d.len() && d[k] == x;
                    assert(e[k] == x);
                }
                if x == last {
                    assert(e[d.len() as int] == x);
                }
            }
        }
        if !d.contains(tags.last()) {
            assert(distinct_ids(tags)[d.len() as int] == tags.last());
        }
    }
}

/// The ids without repetitions, each where it first occurs.
pub fn distinct_tag_ids(ids: &Vec<i64>) -> (res: Vec<i64>)
    ensures
        res@ == distinct_ids(ids@),
{
    let mut out: Vec<i64> = Vec::new();
    let mut i: usize = 0;
    assert(ids@.take(0) =~= Seq::<i64>::empty());
    while i < ids.len()
        invariant
            i <= ids@.len(),
            out@ == distinct_ids(ids@.take(i as int)),
        decreases ids@.len() - i,
    {
        assert(ids@.take(i + 1).drop_last() =~= ids@.take(i as int));
        assert(ids@.take(i + 1).last() == ids@[i as int]);
        let x = ids[i];
        let mut found = false;
        let mut j: usize = 0;
        while j < out.len()
            invariant
                j <= out@.len(),
                found == exists|k: int| 0 <= k < j && out@[k] == x,
            decreases out@.len() - j,
        {
            if out[j] == x {
                found = true;
            }
            j = j + 1;
        }
        assert(found == out@.contains(x));
        if !found {
            out.push(x);
        }
        i = i + 1;
    }
    assert(ids@.take(ids@.len() as int) =~= ids@);
    out
}

/// The `LIKE` pattern of a keyword: the trimmed keyword anywhere.
pub open spec fn like_pattern(kw: Seq<char>) -> Seq<char> {
    "%"@ + trim(kw) + "%"@
}

/// The keyword filter applies when a keyword is given and is not blank.
pub open spec fn keyword_active(q: VideoQuery) -> bool {
    q.keyword matches Some(k) && trim(k@).len() > 0
}

/// The tag filter applies when a non-empty tag list is given.
pub open spec fn tags_active(q: VideoQuery) -> bool {
    q.tag_ids matches Some(t) && t@.len() > 0
}

/// `s` when `c` holds, otherwise nothing.
pub open spec fn only_if<T>(c: bool, s: Seq<T>) -> Seq<T> {
    if c {
        s
    } else {
        Seq::<T>::empty()
    }
}

/// The conditions of the listing, in order: workspace, folder (with its
/// descendants), keyword, tags (all of them).
pub open spec fn video_clauses(q: VideoQuery) -> Seq<Seq<char>> {
    only_if(q.workspace_id is Some, seq!["v.workspace_id = ?"@]) + only_if(
        q.folder_id is Some,
        seq![folder_clause()],
    ) + only_if(keyword_active(q), seq![keyword_clause()]) + only_if(
        tags_active(q),
        seq![tag_clause(distinct_ids(q.tag_ids->0@).len())],
    )
}

/// The values bound to the conditions of the listing, in order.
pub open spec fn video_params(q: VideoQuery) -> Seq<ParamValue> {
    let like = ParamValue::Text(like_pattern(q.keyword->0@));
    only_if(q.workspace_id is Some, seq![ParamValue::Int(q.workspace_id->0)]) + only_if(
        q.folder_id is Some,
        seq![ParamValue::Int(q.folder_id->0)],
    ) + only_if(keyword_active(q), seq![like, like, like, like]) + only_if(
        tags_active(q),
        tag_params(q.tag_ids->0@),
    )
}

/// The `WHERE` part and the bound values of the listing's filters.
pub fn video_filter(q: &VideoQuery) -> (res: (String, Vec<SqlParam>))
    ensures
        res.0@ == where_of(video_clauses(*q)),
        param_values(res.1@) == video_params(*q),
{
    let mut clauses: Vec<String> = Vec::new();
    let mut params: Vec<SqlParam> = Vec::new();
    let ghost qq = *q;
    match q.workspace_id {
        Some(ws) => {
            clauses.push(String::from_str("v.workspace_id = ?"));
            params.push(SqlParam::Int(ws));
        },
        None => {},
    }
    match q.folder_id {
        Some(fid) => {
            clauses.push(
                String::from_str(
                    "v.folder_id IN (WITH RECURSIVE subq(id) AS (SELECT ? UNION ALL SELECT c.id FROM folders c JOIN subq ON c.parent_id = subq.id) SELECT id FROM subq)",
                ),
            );
            params.push(SqlParam::Int(fid));
        },
        None => {},
    }
    let ghost c2 = views(clauses@);
    let ghost p2 = param_values(params@);
    assert(c2 =~= only_if(qq.workspace_id is Some, seq!["v.workspace_id = ?"@]) + only_if(
        qq.folder_id is Some,
        seq![folder_clause()],
    ));
    assert(p2 =~= only_if(qq.workspace_id is Some, seq![ParamValue::Int(qq.workspace_id->0)]) + only_if(
        qq.folder_id is Some,
        seq![ParamValue::Int(qq.folder_id->0)],
    ));
    match &q.keyword {
        Some(k) => {
            let t = trim_str(k.as_str());
            if !t.as_str().is_empty() {
                let mut like = String::from_str("%");
                like.append(t.as_str());
                like.append("%");
                clauses.push(
                    String::from_str(
                        "(v.file_name LIKE ? OR v.file_path LIKE ? OR v.custom_title LIKE ? OR v.notes LIKE ?)",
                    ),
                );
                params.push(SqlParam::Text(like.clone()));
                params.push(SqlParam::Text(like.clone()));
                params.push(SqlParam::Text(like.clone()));
                params.push(SqlParam::Text(like));
            }
        },
        None => {},
    }
    let ghost c3 = views(clauses@);
    let ghost p3 = param_values(params@);
    assert(c3 =~= c2 + only_if(keyword_active(qq), seq![keyword_clause()]));
    assert(p3 =~= p2 + only_if(
        keyword_active(qq),
        seq![
            ParamValue::Text(like_pattern(qq.keyword->0@)),
            ParamValue::Text(like_pattern(qq.keyword->0@)),
            ParamValue::Text(like_pattern(qq.keyword->0@)),
            ParamValue::Text(like_pattern(qq.keyword->0@)),
        ],
    ));
    match &q.tag_ids {
        Some(tags) => {
            if tags.len() > 0 {
                let d = distinct_tag_ids(tags);
                proof {
                    law_tag_filter_counts_each_tag_once(tags@);
                }
                let marks = placeholder_list(d.len());
                let mut clause = String::from_str(
                    "v.id IN (SELECT video_id FROM video_tags WHERE tag_id IN (",
                );
                clause.append(marks.as_str());
                clause.append(") GROUP BY video_id HAVING COUNT(DISTINCT tag_id) = ?)");
                clauses.push(clause);
                let mut i: usize = 0;
                while i < d.len()
                    invariant
                        i <= d@.len(),
                        params@.len() == p3.len() + i,
                        forall|k: int| 0 <= k < p3.len() ==> (#[trigger] params@[k])@ == p3[k],
                        forall|k: int|
                            0 <= k < i ==> (#[trigger] params@[p3.len() + k])@ == ParamValue::Int(
                                d@[k],
                            ),
                    decreases d@.len() - i,
                {
                    params.push(SqlParam::Int(d[i]));
                    i = i + 1;
                }
                let n = d.len() as i64;
                params.push(SqlParam::Int(n));
                let ghost tail = tag_params(tags@);
                assert forall|k: int| 0 <= k < params@.len() implies param_values(params@)[k] == (p3
                    + tail)[k] by {
                    if p3.len() <= k < p3.len() + d@.len() {
                        let m = k - p3.len();
                        assert(params@[p3.len() + m]@ == ParamValue::Int(d@[m]));
                    }
                }
                assert(param_values(params@) =~= p3 + tail);
            } else {
                assert(param_values(params@) =~= p3);
            }
        },
        None => {
            assert(param_values(params@) =~= p3);
        },
    }
    assert(views(clauses@) =~= video_clauses(qq));
    assert(param_values(params@) =~= video_params(qq));
    let w = where_clause(&clauses);
    (w, params)
}

// ---------------------------------------------------------------------------
// The listing
// ---------------------------------------------------------------------------

/// The statements of one page of the video listing.
#[derive(Debug, Clone, PartialEq, Eq)]
pub struct VideoListPlan {
    /// Counts all matching videos.
    pub count_sql: String,
    pub count_params: Vec<SqlParam>,
    /// Reads the rows of the page.
    pub list_sql: String,
    pub list_params: Vec<SqlParam>,
}

/// The statement that counts the matching videos.
pub open spec fn video_count_sql(q: VideoQuery) -> Seq<char> {
    "SELECT COUNT(*) FROM videos v "@ + where_of(video_clauses(q))
}

/// The statement that reads one page of matching videos.
pub open spec fn video_page_sql(q: VideoQuery) -> Seq<char> {
    "SELECT "@ + video_columns() + " FROM videos v "@ + where_of(video_clauses(q)) + " ORDER BY "@
        + sort_column_of(opt_string_view(q.sort_by)) + " "@ + sort_order_of(
        opt_string_view(q.sort_order),
    ) + " LIMIT ? OFFSET ?"@
}

/// Paging of the listing: at most 200 videos per page.
pub open spec fn video_page_fits(q: VideoQuery) -> bool {
    page_offset(q.page, q.page_size, 200) <= u32::MAX
}

/// The statements of one page of the video listing: the filters of
/// [`video_filter`], the order of [`sort_column`] and [`sort_order`], and a
/// page of at most 200 rows (page numbers start at 1).
pub fn plan_video_list(q: &VideoQuery) -> (res: VideoListPlan)
    requires
        video_page_fits(*q),
    ensures
        res.count_sql@ == video_count_sql(*q),
        param_values(res.count_params@) == video_params(*q),
        res.list_sql@ == video_page_sql(*q),
        param_values(res.list_params@) == video_params(*q) + seq![
            ParamValue::Int(page_size_within(q.page_size, 200) as i64),
            ParamValue::Int(page_offset(q.page, q.page_size, 200) as i64),
        ],
{
    let (w, params) = video_filter(q);
    let mut count_sql = String::from_str("SELECT COUNT(*) FROM videos v ");
    count_sql.append(w.as_str());
    let (limit, offset) = page_window(q.page, q.page_size, 200);
    let mut list_sql = String::from_str("SELECT ");
    list_sql.append(video_columns_str());
    list_sql.append(" FROM videos v ");
    list_sql.append(w.as_str());
    list_sql.append(" ORDER BY ");
    list_sql.append(sort_column(as_opt_str(&q.sort_by)));
    list_sql.append(" ");
    list_sql.append(sort_order(as_opt_str(&q.sort_order)));
    list_sql.append(" LIMIT ? OFFSET ?");
    let mut list_params = copy_params(&params);
    let ghost base = param_values(list_params@);
    list_params.push(SqlParam::Int(limit as i64));
    list_params.push(SqlParam::Int(offset as i64));
    assert(param_values(list_params@) =~= base + seq![
        ParamValue::Int(limit as i64),
        ParamValue::Int(offset as i64),
    ]);
    VideoListPlan { count_sql, count_params: params, list_sql, list_params }
}

// ---------------------------------------------------------------------------
// Search
// ---------------------------------------------------------------------------

/// The statement of the search: the keyword is looked for in the file
/// name, path, custom title, notes and tag names; the most opened videos
/// come first.
pub open spec fn search_sql() -> Seq<char> {
    "SELECT DISTINCT "@ + video_columns()
        + " FROM videos v LEFT JOIN video_tags vt ON vt.video_id = v.id LEFT JOIN tags t ON t.id = vt.tag_id WHERE v.file_name LIKE ?1 OR v.file_path LIKE ?2 OR v.custom_title LIKE ?3 OR v.notes LIKE ?4 OR t.name LIKE ?5 ORDER BY v.open_count DESC LIMIT ?6"@
}

/// The columns the search looks in, matched against its parameters 1 to 5
/// in order: the file name, the path, the custom title, the notes, and the
/// name of a tag the video carries.
pub open spec fn searched_columns() -> Seq<Seq<char>> {
    seq!["v.file_name"@, "v.file_path"@, "v.custom_title"@, "v.notes"@, "t.name"@]
}

/// The search condition on column `i` of `searched_columns`: it matches
/// the pattern bound as parameter `i + 1`.
pub open spec fn searched_condition(i: int) -> Seq<char> {
    searched_columns()[i] + " LIKE ?"@ + seq![seq!['1', '2', '3', '4', '5'][i]]
}

/// A search finds a video when the keyword occurs in its file name, path,
/// custom title or notes, or in the name of one of its tags: the statement
/// joins each video with its tags and accepts a row when any of the five
/// columns matches; rows come most opened first, at most the limit.
pub proof fn law_search_looks_in_names_notes_and_tags()
    ensures
        searched_columns()[4] == "t.name"@,
        search_sql() == "SELECT DISTINCT "@ + video_columns() + (
        " FROM videos v LEFT JOIN video_tags vt ON vt.video_id = v.id LEFT JOIN tags t ON t.id = vt.tag_id WHERE "@
            + join(Seq::new(5, |i: int| searched_condition(i)), " OR "@)
            + " ORDER BY v.open_count DESC LIMIT ?6"@),
{
    reveal_strlit(" FROM videos v LEFT JOIN video_tags vt ON vt.video_id = v.id LEFT JOIN tags t ON t.id = vt.tag_id WHERE v.file_name LIKE ?1 OR v.file_path LIKE ?2 OR v.custom_title LIKE ?3 OR v.notes LIKE ?4 OR t.name LIKE ?5 ORDER BY v.open_count DESC LIMIT ?6");
    reveal_strlit(" FROM videos v LEFT JOIN video_tags vt ON vt.video_id = v.id LEFT JOIN tags t ON t.id = vt.tag_id WHERE ");
    reveal_strlit(" ORDER BY v.open_count DESC LIMIT ?6");
    reveal_strlit(" LIKE ?");
    reveal_strlit(" OR ");
    reveal_strlit("v.file_name");
    reveal_strlit("v.file_path");
    reveal_strlit("v.custom_title");
    reveal_strlit("v.notes");
    reveal_strlit("t.name");
    reveal_with_fuel(join, 6);
    let conds = Seq::new(5, |i: int| searched_condition(i));
    assert(conds.drop_last().drop_last().drop_last().drop_last() =~= seq![searched_condition(0)]);
    assert(join(conds, " OR "@) =~= searched_condition(0) + " OR "@ + searched_condition(1)
        + " OR "@ + searched_condition(2) + " OR "@ + searched_condition(3) + " OR "@
        + searched_condition(4));
    assert(" FROM videos v LEFT JOIN video_tags vt ON vt.video_id = v.id LEFT JOIN tags t ON t.id = vt.tag_id WHERE v.file_name LIKE ?1 OR v.file_path LIKE ?2 OR v.custom_title LIKE ?3 OR v.notes LIKE ?4 OR t.name LIKE ?5 ORDER BY v.open_count DESC LIMIT ?6"@
        =~= " FROM videos v LEFT JOIN video_tags vt ON vt.video_id = v.id LEFT JOIN tags t ON t.id = vt.tag_id WHERE "@
        + join(conds, " OR "@) + " ORDER BY v.open_count DESC LIMIT ?6"@);
}

/// The most rows a search returns.
pub open spec fn search_limit(limit: u32) -> int {
    if limit < 500 {
        limit as int
    } else {
        500
    }
}

/// The statement and values of a search, or `None` when the keyword is
/// blank (then there are no results).
pub fn plan_search(keyword: &str, limit: u32) -> (res: Option<(String, Vec<SqlParam>)>)
    ensures
        trim(keyword@).len() == 0 ==> res is None,
        trim(keyword@).len() > 0 ==> (res matches Some(p) && p.0@ == search_sql() && param_values(p.1@)
            == seq![
            ParamValue::Text(like_pattern(keyword@)),
            ParamValue::Text(like_pattern(keyword@)),
            ParamValue::Text(like_pattern(keyword@)),
            ParamValue::Text(like_pattern(keyword@)),
            ParamValue::Text(like_pattern(keyword@)),
            ParamValue::Int(search_limit(limit) as i64),
        ]),
{
    let kw = trim_str(keyword);
    if kw.as_str().is_empty() {
        return None;
    }
    let mut like = String::from_str("%");
    like.append(kw.as_str());
    like.append("%");
    let mut sql = String::from_str("SELECT DISTINCT ");
    sql.append(video_columns_str());
    sql.append(
        " FROM videos v LEFT JOIN video_tags vt ON vt.video_id = v.id LEFT JOIN tags t ON t.id = vt.tag_id WHERE v.file_name LIKE ?1 OR v.file_path LIKE ?2 OR v.custom_title LIKE ?3 OR v.notes LIKE ?4 OR t.name LIKE ?5 ORDER BY v.open_count DESC LIMIT ?6",
    );
    let lim: u32 = if limit < 500 {
        limit
    } else {
        500
    };
    let mut params: Vec<SqlParam> = Vec::new();
    params.push(SqlParam::Text(like.clone()));
    params.push(SqlParam::Text(like.clone()));
    params.push(SqlParam::Text(like.clone()));
    params.push(SqlParam::Text(like.clone()));
    params.push(SqlParam::Text(like));
    params.push(SqlParam::Int(lim as i64));
    assert(param_values(params@) =~= seq![
        ParamValue::Text(like_pattern(keyword@)),
        ParamValue::Text(like_pattern(keyword@)),
        ParamValue::Text(like_pattern(keyword@)),
        ParamValue::Text(like_pattern(keyword@)),
        ParamValue::Text(like_pattern(keyword@)),
        ParamValue::Int(search_limit(limit) as i64),
    ]);
    Some((sql, params))
}

/// Row `i` is the first with its id.
pub open spec fn is_first_occurrence(ids: Seq<i64>, i: int) -> bool {
    forall|j: int| 0 <= j < i ==> ids[j] != ids[i]
}

/// For each row, whether it is kept: only the first row with a given video
/// id is.
pub fn first_occurrences(ids: &Vec<i64>) -> (res: Vec<bool>)
    ensures
        res@.len() == ids@.len(),
        forall|i: int| 0 <= i < ids@.len() ==> #[trigger] res@[i] == is_first_occurrence(ids@, i),
{
    let mut out: Vec<bool> = Vec::new();
    let mut i: usize = 0;
    while i < ids.len()
        invariant
            i <= ids@.len(),
            out@.len() == i,
            forall|k: int| 0 <= k < i ==> #[trigger] out@[k] == is_first_occurrence(ids@, k),
        decreases ids@.len() - i,
    {
        let mut seen = false;
        let mut j: usize = 0;
        while j < i
            invariant
                j <= i < ids@.len(),
                seen == exists|k: int| 0 <= k < j && ids@[k] == ids@[i as int],
            decreases i - j,
        {
            if ids[j] == ids[i] {
                seen = true;
            }
            j = j + 1;
        }
        out.push(!seen);
        i = i + 1;
    }
    out
}

/// Kept rows have pairwise different ids.
pub proof fn law_kept_rows_distinct(ids: Seq<i64>, i: int, j: int)
    requires
        0 <= i < j < ids.len(),
        is_first_occurrence(ids, i),
        is_first_occurrence(ids, j),
    ensures
        ids[i] != ids[j],
{
}

/// Every id of the input is kept: some row at or before each row, with the
/// same id, is the first with that id.
pub proof fn law_every_id_kept(ids: Seq<i64>, j: int)
    requires
        0 <= j < ids.len(),
    ensures
        exists|i: int| 0 <= i <= j && ids[i] == ids[j] && #[trigger] is_first_occurrence(ids, i),
{
    lemma_first_occurrence_exists(ids, j, j);
}

proof fn lemma_first_occurrence_exists(ids: Seq<i64>, j: int, i: int)
    requires
        0 <= i <= j < ids.len(),
        ids[i] == ids[j],
    ensures
        exists|k: int| 0 <= k <= j && ids[k] == ids[j] && #[trigger] is_first_occurrence(ids, k),
    decreases i,
{
    if is_first_occurrence(ids, i) {
    } else {
        let k = choose|k: int| 0 <= k < i && ids[k] == ids[i];
        lemma_first_occurrence_exists(ids, j, k);
    }
}

// ---------------------------------------------------------------------------
// Tags of many videos
// ---------------------------------------------------------------------------

/// The statement that reads the tags of `n` videos, ordered by tag name.
pub open spec fn video_tags_sql(n: nat) -> Seq<char> {
    "SELECT vt.video_id, t.id, t.group_id, t.name, t.color FROM video_tags vt JOIN tags t ON t.id = vt.tag_id WHERE vt.video_id IN ("@
        + placeholders(n) + ") ORDER BY t.name"@
}

/// The statement that reads the tags of the given videos, and its values.
pub fn plan_video_tags(video_ids: &Vec<i64>) -> (res: (String, Vec<SqlParam>))
    ensures
        res.0@ == video_tags_sql(video_ids@.len()),
        param_values(res.1@) == Seq::new(video_ids@.len(), |i: int| ParamValue::Int(video_ids@[i])),
{
    let marks = placeholder_list(video_ids.len());
    let mut sql = String::from_str(
        "SELECT vt.video_id, t.id, t.group_id, t.name, t.color FROM video_tags vt JOIN tags t ON t.id = vt.tag_id WHERE vt.video_id IN (",
    );
    sql.append(marks.as_str());
    sql.append(") ORDER BY t.name");
    let mut params: Vec<SqlParam> = Vec::new();
    let mut i: usize = 0;
    while i < video_ids.len()
        invariant
            i <= video_ids@.len(),
            params@.len() == i,
            forall|k: int| 0 <= k < i ==> (#[trigger] params@[k])@ == ParamValue::Int(video_ids@[k]),
        decreases video_ids@.len() - i,
    {
        params.push(SqlParam::Int(video_ids[i]));
        i = i + 1;
    }
    assert(param_values(params@) =~= Seq::new(
        video_ids@.len(),
        |i: int| ParamValue::Int(video_ids@[i]),
    ));
    (sql, params)
}

/// The tags of the rows that belong to video `v`, in row order.
pub open spec fn tags_of_video(rows: Seq<(i64, Tag)>, v: i64) -> Seq<Tag>
    decreases rows.len(),
{
    if rows.len() == 0 {
        Seq::<Tag>::empty()
    } else {
        let rest = tags_of_video(rows.drop_last(), v);
        if rows.last().0 == v {
            rest.push(rows.last().1)
        } else {
            rest
        }
    }
}

/// The tags of one video of a batch: the tags of its rows, except that when
/// the same video appears twice in the batch only the first one gets them.
pub open spec fn batch_tags_at(ids: Seq<i64>, rows: Seq<(i64, Tag)>, k: int) -> Seq<Tag> {
    if is_first_occurrence(ids, k) {
        tags_of_video(rows, ids[k])
    } else {
        Seq::<Tag>::empty()
    }
}

/// The tags of the rows of video `v`.
fn collect_video_tags(rows: &Vec<(i64, Tag)>, v: i64) -> (res: Vec<Tag>)
    ensures
        res@ == tags_of_video(rows@, v),
{
    let mut out: Vec<Tag> = Vec::new();
    let mut j: usize = 0;
    assert(rows@.take(0) =~= Seq::<(i64, Tag)>::empty());
    while j < rows.len()
        invariant
            j <= rows@.len(),
            out@ == tags_of_video(rows@.take(j as int), v),
        decreases rows@.len() - j,
    {
        assert(rows@.take(j + 1).drop_last() =~= rows@.take(j as int));
        assert(rows@.take(j + 1).last() == rows@[j as int]);
        if rows[j].0 == v {
            out.push(rows[j].1.duplicate());
        }
        j = j + 1;
    }
    assert(rows@.take(rows@.len() as int) =~= rows@);
    out
}

/// Distributes tag rows (video id, tag) over a batch of videos: each video
/// gets the tags of its rows, in row order; a video that appears again later
/// in the batch gets none the second time.
pub fn group_tags_by_video(video_ids: &Vec<i64>, rows: &Vec<(i64, Tag)>) -> (res: Vec<Vec<Tag>>)
    ensures
        res@.len() == video_ids@.len(),
        forall|k: int|
            0 <= k < video_ids@.len() ==> (#[trigger] res@[k])@ == batch_tags_at(
                video_ids@,
                rows@,
                k,
            ),
{
    let firsts = first_occurrences(video_ids);
    let mut out: Vec<Vec<Tag>> = Vec::new();
    let mut k: usize = 0;
    while k < video_ids.len()
        invariant
            firsts@.len() == video_ids@.len(),
            forall|i: int|
                0 <= i < video_ids@.len() ==> #[trigger] firsts@[i] == is_first_occurrence(
                    video_ids@,
                    i,
                ),
            k <= video_ids@.len(),
            out@.len() == k,
            forall|i: int|
                0 <= i < k ==> (#[trigger] out@[i])@ == batch_tags_at(video_ids@, rows@, i),
        decreases video_ids@.len() - k,
    {
        if firsts[k] {
            out.push(collect_video_tags(rows, video_ids[k]));
        } else {
            out.push(Vec::new());
        }
        k = k + 1;
    }
    out
}

// ---------------------------------------------------------------------------
// Opening a video
// ---------------------------------------------------------------------------

/// The player that opens a video: the one given with the request unless it
/// is blank, otherwise the one in the settings; `None` means the system's
/// default program.
pub fn choose_player(requested: Option<String>, configured: Option<String>) -> (res: Option<
    String,
>)
    ensures
        (requested matches Some(p) && trim(p@).len() > 0) ==> res == requested,
        !(requested matches Some(p) && trim(p@).len() > 0) ==> res == configured,
{
    match requested {
        Some(p) => {
            if trim_str(p.as_str()).as_str().is_empty() {
                configured
            } else {
                Some(p)
            }
        },
        None => configured,
    }
}

} // verus!
