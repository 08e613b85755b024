use video_manager::logs::{export_csv, log_filter, plan_log_export, plan_log_list, CsvRow};
use video_manager::models::LogFilter;
use video_manager::sql::SqlParam;

fn filter() -> LogFilter {
    LogFilter { video_id: None, start_date: None, end_date: None }
}

#[test]
fn log_filters() {
    let (w, p) = log_filter(&filter(), None);
    assert_eq!(w, "");
    assert!(p.is_empty());
    let f = LogFilter {
        video_id: Some(4),
        start_date: Some("2024-01-01".to_string()),
        end_date: Some("".to_string()),
    };
    let (w, p) = log_filter(&f, Some(2));
    assert_eq!(
        w,
        "WHERE v.workspace_id = ? AND l.video_id = ? AND date(l.open_time) >= date(?)"
    );
    assert_eq!(
        p,
        vec![SqlParam::Int(2), SqlParam::Int(4), SqlParam::Text("2024-01-01".to_string())]
    );
}

#[test]
fn log_list_plan() {
    let f = LogFilter { video_id: None, start_date: None, end_date: Some("2024-02-01".to_string()) };
    let plan = plan_log_list(&f, None, 2, 1000);
    assert_eq!(
        plan.count_sql,
        "SELECT COUNT(*) FROM open_logs l JOIN videos v ON v.id = l.video_id WHERE date(l.open_time) <= date(?)"
    );
    assert_eq!(
        plan.list_sql,
        "SELECT l.id, l.video_id, l.open_time, l.close_time, l.duration, l.status, v.file_name, v.file_path FROM open_logs l JOIN videos v ON v.id = l.video_id WHERE date(l.open_time) <= date(?) ORDER BY l.open_time DESC LIMIT ? OFFSET ?"
    );
    assert_eq!(
        plan.list_params,
        vec![SqlParam::Text("2024-02-01".to_string()), SqlParam::Int(500), SqlParam::Int(500)]
    );
}

#[test]
fn log_export_plan() {
    let (sql, p) = plan_log_export(&filter(), Some(1));
    assert_eq!(
        sql,
        "SELECT v.file_name, v.file_path, l.open_time, l.close_time, l.duration, l.status FROM open_logs l JOIN videos v ON v.id = l.video_id WHERE v.workspace_id = ? ORDER BY l.open_time"
    );
    assert_eq!(p, vec![SqlParam::Int(1)]);
}

#[test]
fn csv_export() {
    let rows = vec![
        CsvRow {
            file_name: "say \"hi\".mp4".to_string(),
            file_path: "C:\\v\\say \"hi\".mp4".to_string(),
            open_time: "2024-01-01 10:00:00".to_string(),
            close_time: Some("2024-01-01 10:05:00".to_string()),
            duration: Some("300.0".to_string()),
            status: "closed".to_string(),
        },
        CsvRow {
            file_name: "b.mkv".to_string(),
            file_path: "b.mkv".to_string(),
            open_time: "2024-01-02 09:00:00".to_string(),
            close_time: None,
            duration: None,
            status: "active".to_string(),
        },
    ];
    let csv = export_csv(&rows);
    assert_eq!(
        csv,
        "视频名,路径,打开时间,关闭时间,观看时长(秒),状态\n\"say \"\"hi\"\".mp4\",\"C:\\v\\say \"\"hi\"\".mp4\",2024-01-01 10:00:00,2024-01-01 10:05:00,300.0,closed\n\"b.mkv\",\"b.mkv\",2024-01-02 09:00:00,,,active\n"
    );
    assert_eq!(export_csv(&vec![]), "视频名,路径,打开时间,关闭时间,观看时长(秒),状态\n");
}

/// Reads the first quoted field of a CSV line: each doubled quote stands for one.
fn first_quoted_field(line: &str) -> String {
    let cs: Vec<char> = line.chars().collect();
    assert_eq!(cs[0], '"');
    let mut out = String::new();
    let mut i = 1;
    loop {
        if cs[i] == '"' {
            if i + 1 < cs.len() && cs[i + 1] == '"' {
                out.push('"');
                i += 2;
                continue;
            }
            break;
        }
        out.push(cs[i]);
        i += 1;
    }
    out
}

#[test]
fn csv_field_reads_back() {
    let name = "\"quoted\" and \"\"twice\"\".mp4";
    let rows = vec![CsvRow {
        file_name: name.to_string(),
        file_path: "p".to_string(),
        open_time: "t".to_string(),
        close_time: None,
        duration: None,
        status: "closed".to_string(),
    }];
    let csv = export_csv(&rows);
    let line = csv.lines().nth(1).unwrap();
    assert_eq!(first_quoted_field(line), name);
}
