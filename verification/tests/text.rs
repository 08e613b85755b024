use video_manager::sql::{page_window, placeholder_list, where_clause};
use video_manager::text::{
    chars_of, double_quotes_str, eq_ignore_ascii_case, join_strings, replace_char_str, split_str,
    str_eq, to_lowercase, trim_str,
};

#[test]
fn splitting_and_joining() {
    assert_eq!(split_str("a,,b", ','), vec!["a", "", "b"]);
    assert_eq!(split_str("", ','), vec![""]);
    assert_eq!(split_str(",", ','), vec!["", ""]);
    let parts = vec!["x".to_string(), "y".to_string(), "z".to_string()];
    assert_eq!(join_strings(&parts, " AND "), "x AND y AND z");
    assert_eq!(join_strings(&vec![], ","), "");
}

#[test]
fn trimming_and_case() {
    assert_eq!(trim_str("\u{3000} a b\t\n"), "a b");
    assert!(eq_ignore_ascii_case("Straße", "STRAßE"));
    assert!(!eq_ignore_ascii_case("ab", "abc"));
    assert_eq!(to_lowercase("MP4"), "mp4");
    assert_eq!(replace_char_str("a/b/c", '/', '\\'), "a\\b\\c");
    assert_eq!(double_quotes_str("a\"b"), "a\"\"b");
}

#[test]
fn statement_parts() {
    assert_eq!(placeholder_list(0), "");
    assert_eq!(placeholder_list(3), "?,?,?");
    assert_eq!(where_clause(&vec![]), "");
    assert_eq!(where_clause(&vec!["a = ?".to_string(), "b = ?".to_string()]), "WHERE a = ? AND b = ?");
}

#[test]
fn paging_windows() {
    assert_eq!(page_window(0, 0, 200), (1, 0));
    assert_eq!(page_window(1, 50, 200), (50, 0));
    assert_eq!(page_window(3, 999, 200), (200, 400));
    assert_eq!(page_window(4, 20, 500), (20, 60));
    assert_eq!(page_window(5, 20, 500).1, page_window(4, 20, 500).1 + 20);
}

#[test]
fn trimming_agrees_with_std() {
    let samples = [
        "",
        "   ",
        "\u{85}x\u{a0}",
        "\u{1680}\u{2000}\u{200a}中文\u{2028}\u{2029}\u{202f}\u{205f}\u{3000}",
        "\u{200b}zero width\u{200b}",
        "\t\r\n\u{b}\u{c} inner  space \n",
        "\u{feff}bom",
    ];
    for s in samples {
        assert_eq!(trim_str(s), s.trim());
    }
}

#[test]
fn characters_and_equality() {
    assert_eq!(chars_of("a中b"), vec!['a', '中', 'b']);
    assert!(chars_of("").is_empty());
    assert!(str_eq("视频", "视频"));
    assert!(!str_eq("视频", "视"));
    assert!(!str_eq("ab", "aB"));
    assert!(str_eq("", ""));
}
