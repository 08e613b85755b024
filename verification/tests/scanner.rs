use video_manager::scanner::{
    check_workspace_path, classify_file, hash_enabled, ignored_dirs, is_ignored, is_video_ext,
    is_video_file, log_scan_error, normalize_path, plan_folder, scan_precheck, under_root_pattern,
    workspace_name, FileAction, FileOutcome, ScanTally, StoredVideo,
};

#[test]
fn video_files_by_extension() {
    assert!(is_video_file("test.mp4"));
    assert!(is_video_file("a.mkv"));
    assert!(is_video_file("CLIP.WEBM"));
    assert!(is_video_file("x.tar.3gp"));
    assert!(is_video_file("Movie.M4V"));
    assert!(!is_video_file("cover.jpg"));
    assert!(!is_video_file("notes.txt"));
    assert!(!is_video_file("mp4"));
    assert!(!is_video_file(".mp4"));
    assert!(!is_video_file("a."));
    assert!(!is_video_file(".."));
    assert!(!is_video_file(""));
    assert!(!is_video_file("video.mp4.bak"));
}

#[test]
fn video_extensions() {
    for e in ["mp4", "mkv", "avi", "mov", "webm", "flv", "wmv", "m4v", "3gp"] {
        assert!(is_video_ext(e));
    }
    assert!(!is_video_ext("MP4"));
    assert!(!is_video_ext("mpg"));
}

#[test]
fn ignored_names_match_without_ascii_case() {
    let ignored = vec![".git".to_string(), "node_modules".to_string()];
    assert!(is_ignored(".GIT", &ignored));
    assert!(is_ignored("Node_Modules", &ignored));
    assert!(!is_ignored("node_module", &ignored));
    assert!(!is_ignored("src", &ignored));
    assert!(!is_ignored("x", &vec![]));
}

fn defaults() -> Vec<String> {
    [".git", "node_modules", "$RECYCLE.BIN", "System Volume Information", ".Trash"]
        .iter()
        .map(|s| s.to_string())
        .collect()
}

#[test]
fn ignored_dirs_without_setting() {
    assert_eq!(ignored_dirs(None), defaults());
}

#[test]
fn ignored_dirs_merges_setting() {
    let mut expected = defaults();
    expected.push("build".to_string());
    expected.push("Cache Dir".to_string());
    assert_eq!(ignored_dirs(Some(" build , ,.GIT,Cache Dir,BUILD,")), expected);
}

#[test]
fn ignored_dirs_empty_setting() {
    assert_eq!(ignored_dirs(Some("")), defaults());
}

#[test]
fn normalize_lowercases_with_backslashes() {
    assert_eq!(normalize_path("C:/Videos/Sub"), "c:\\videos\\sub");
    assert_eq!(normalize_path("C:\\Videos/SUB\\x"), "c:\\videos\\sub\\x");
    assert_eq!(normalize_path("/tmp/X"), "\\tmp\\x");
    assert_eq!(normalize_path("D:/视频/ÄB"), "d:\\视频\\äb");
    assert_eq!(normalize_path(&normalize_path("A/b")), normalize_path("A/b"));
    assert_eq!(normalize_path("c:\\videos"), normalize_path("C:/VIDEOS"));
}

#[test]
fn cleanup_pattern_keeps_root_as_given() {
    assert_eq!(under_root_pattern("D:/v"), "D:/v%");
    assert_eq!(under_root_pattern("/tmp/scan_del"), "/tmp/scan_del%");
    assert_eq!(under_root_pattern("C:\\Videos"), "C:\\Videos%");
}

#[test]
fn folder_recording_plan() {
    let s = plan_folder("C:/Root/Sub", Some("Sub"), Some("C:/Root"), false);
    assert_eq!(s.norm, "c:\\root\\sub");
    assert_eq!(s.name, "Sub");
    assert_eq!(s.parent, Some("C:/Root".to_string()));
    let s = plan_folder("/", None, None, false);
    assert_eq!(s.name, "/");
    assert_eq!(s.parent, None);
    let s = plan_folder("rel", Some("rel"), Some(""), false);
    assert_eq!(s.parent, None);
    let s = plan_folder("x", Some("x"), Some("x"), true);
    assert_eq!(s.parent, None);
}

#[test]
fn classify_by_mtime_and_size() {
    let rec = StoredVideo { id: 7, modified_at: "2024-01-01 10:00:00".to_string(), file_size: 100 };
    assert_eq!(classify_file(None, "2024-01-01 10:00:00", 100), FileAction::Insert);
    assert_eq!(classify_file(Some(&rec), "2024-01-01 10:00:00", 100), FileAction::Unchanged);
    assert_eq!(
        classify_file(Some(&rec), "2024-01-01 10:00:01", 100),
        FileAction::Update { video_id: 7 }
    );
    assert_eq!(
        classify_file(Some(&rec), "2024-01-01 10:00:00", 101),
        FileAction::Update { video_id: 7 }
    );
}

#[test]
fn tally_counts_each_file_once() {
    let mut t = ScanTally::new();
    assert!(!t.record("a.mp4", FileOutcome::Added));
    assert!(!t.record("b.mp4", FileOutcome::Unchanged));
    assert!(!t.record("c.mp4", FileOutcome::Updated));
    assert!(!t.record("d.mp4", FileOutcome::Failed { message: "读取文件信息失败".to_string() }));
    assert_eq!(t.scanned, 4);
    assert_eq!(t.added + t.updated + t.unchanged + t.errors.len() as u64, t.scanned);
    let r = t.into_result(3);
    assert_eq!(r.workspace_id, 3);
    assert_eq!((r.added, r.updated, r.unchanged), (1, 1, 1));
    assert_eq!(r.errors, vec!["d.mp4: 读取文件信息失败".to_string()]);
}

#[test]
fn tally_publishes_every_fifty_files() {
    let mut t = ScanTally::new();
    let mut published = Vec::new();
    for i in 0..120 {
        if t.record("f.mp4", FileOutcome::Unchanged) {
            published.push(i + 1);
        }
    }
    assert_eq!(published, vec![50, 100]);
    assert_eq!(t.unchanged, 120);
}

#[test]
fn live_errors_are_capped() {
    let mut errors = Vec::new();
    for _ in 0..205 {
        log_scan_error(&mut errors, "x.mp4", "boom");
    }
    assert_eq!(errors.len(), 200);
    assert_eq!(errors[0], "x.mp4: boom");
}

#[test]
fn precheck_messages() {
    assert_eq!(scan_precheck(true, "/v", true), Err("扫描正在进行中".to_string()));
    assert_eq!(scan_precheck(true, "/v", false), Err("扫描正在进行中".to_string()));
    assert_eq!(scan_precheck(false, "/v", false), Err("路径不存在或不是文件夹: /v".to_string()));
    assert_eq!(scan_precheck(false, "/v", true), Ok(()));
}

#[test]
fn workspace_path_checks() {
    assert_eq!(check_workspace_path("  ", true), Err("扫描路径不能为空".to_string()));
    assert_eq!(
        check_workspace_path("/nope", false),
        Err("路径不存在或不是文件夹: /nope".to_string())
    );
    assert_eq!(check_workspace_path("/v", true), Ok(()));
}

#[test]
fn workspace_names() {
    assert_eq!(workspace_name("  我的库 ", "/data/videos", Some("videos")), "我的库");
    assert_eq!(workspace_name("", "/data/videos", Some("videos")), "videos");
    assert_eq!(workspace_name(" ", "/", None), "/");
}

#[test]
fn hash_setting() {
    assert!(hash_enabled(Some("1")));
    assert!(!hash_enabled(Some("0")));
    assert!(!hash_enabled(Some(" 1")));
    assert!(!hash_enabled(None));
}

#[test]
fn video_extension_lowercased_as_unicode() {
    // KELVIN SIGN lower-cases to an ASCII `k` under the Unicode mapping.
    assert!(is_video_file("clip.m\u{212A}v"));
    assert!(is_video_file("clip.Mp4"));
    assert!(!is_video_file("clip.mp\u{2074}"));
}
