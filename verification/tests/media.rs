use video_manager::media::{
    choose_tool_path, find_ffmpeg, find_ffprobe, parse_probe_output, pick_streams, read_probe,
    sha256_hex, FileHasher, ProbeFields, ProbeReport, ProbeStream,
};
use video_manager::text::parse_i64_str;

#[test]
fn tool_path_choice() {
    assert_eq!(
        choose_tool_path(Some("  /opt/ffprobe "), true, Some("/usr/bin/ffprobe".to_string())),
        Some("/opt/ffprobe".to_string())
    );
    assert_eq!(
        choose_tool_path(Some("/opt/ffprobe"), false, Some("/usr/bin/ffprobe".to_string())),
        Some("/usr/bin/ffprobe".to_string())
    );
    assert_eq!(choose_tool_path(Some("   "), true, None), None);
    assert_eq!(choose_tool_path(None, true, Some("p".to_string())), Some("p".to_string()));
}

#[test]
fn find_tools_fall_back_to_search_path() {
    assert_eq!(
        find_ffprobe(Some("/definitely/not/here/ffprobe"), Some("/bin/ffprobe".to_string())),
        Some("/bin/ffprobe".to_string())
    );
    assert_eq!(find_ffmpeg(None, None), None);
    assert_eq!(find_ffmpeg(Some(" "), Some("x".to_string())), Some("x".to_string()));
}

#[test]
fn streams_first_of_each_kind() {
    let types: Vec<String> = ["audio", "video", "", "video", "audio", "subtitle"]
        .iter()
        .map(|s| s.to_string())
        .collect();
    assert_eq!(pick_streams(&types), (Some(1), Some(0)));
    assert_eq!(pick_streams(&vec!["data".to_string()]), (None, None));
}

#[test]
fn sha256_known_values() {
    assert_eq!(
        sha256_hex(b"abc"),
        "ba7816bf8f01cfea414140de5dae2223b00361a396177a9cb410ff61f20015ad"
    );
    assert_eq!(
        sha256_hex(b""),
        "e3b0c44298fc1c149afbf4c8996fb92427ae41e4649b934ca495991b7852b855"
    );
}

#[test]
fn hashing_in_chunks_matches_whole() {
    let mut h = FileHasher::new();
    h.update(b"a");
    h.update(b"");
    h.update(b"bc");
    assert_eq!(h.finish_hex(), sha256_hex(b"abc"));
}

const PROBE: &str = r#"{
  "streams": [
    {"index": 0, "codec_type": "audio", "codec_name": "aac", "sample_rate": "48000"},
    {"index": 1, "codec_type": "video", "codec_name": "h264", "width": 1920, "height": 1080,
     "r_frame_rate": "30000/1001"},
    {"index": 2, "codec_type": "video", "codec_name": "mjpeg", "width": 320, "height": 240},
    {"index": 3, "codec_type": "audio", "sample_rate": "44100"}
  ],
  "format": {"filename": "a.mp4", "duration": "12.500000"}
}"#;

#[test]
fn probe_output_is_read() {
    let report = parse_probe_output(PROBE.as_bytes()).unwrap();
    assert_eq!(report.duration, Some("12.500000".to_string()));
    let streams = report.streams.clone().unwrap();
    assert_eq!(streams.len(), 4);
    assert_eq!(
        streams[1],
        ProbeStream {
            codec_type: Some("video".to_string()),
            width: Some(1920),
            height: Some(1080),
            codec_name: Some("h264".to_string()),
            r_frame_rate: Some("30000/1001".to_string()),
            sample_rate: None,
        }
    );
    assert_eq!(
        read_probe(&report),
        ProbeFields {
            duration: Some("12.500000".to_string()),
            width: Some(1920),
            height: Some(1080),
            codec: Some("h264".to_string()),
            frame_rate: Some("30000/1001".to_string()),
            sample_rate: Some(48000),
        }
    );
}

#[test]
fn probe_output_edge_cases() {
    assert_eq!(parse_probe_output(b"not json"), None);
    let empty = parse_probe_output(b"{}").unwrap();
    assert_eq!(empty, ProbeReport { duration: None, streams: None });
    assert_eq!(
        read_probe(&empty),
        ProbeFields { duration: None, width: None, height: None, codec: None, frame_rate: None, sample_rate: None }
    );
    // A width written as text, and a sample rate that is not a number.
    let odd = parse_probe_output(
        br#"{"streams":[{"codec_type":"video","width":"640"},{"codec_type":"audio","sample_rate":"n/a"}]}"#,
    )
    .unwrap();
    let f = read_probe(&odd);
    assert_eq!(f.width, None);
    assert_eq!(f.sample_rate, None);
}

#[test]
fn decimal_integers() {
    assert_eq!(parse_i64_str("48000"), Some(48000));
    assert_eq!(parse_i64_str("+7"), Some(7));
    assert_eq!(parse_i64_str("-12"), Some(-12));
    assert_eq!(parse_i64_str("9223372036854775807"), Some(i64::MAX));
    assert_eq!(parse_i64_str("-9223372036854775808"), Some(i64::MIN));
    for bad in ["", "+", "-", "9223372036854775808", "-9223372036854775809", " 1", "1.0", "12a", "+-1"] {
        assert_eq!(parse_i64_str(bad), bad.parse::<i64>().ok(), "{bad}");
        assert_eq!(parse_i64_str(bad), None, "{bad}");
    }
    for good in ["0", "007", "-0", "+123456789012"] {
        assert_eq!(parse_i64_str(good), good.parse::<i64>().ok());
    }
}

#[test]
fn hex_digest_length() {
    assert_eq!(sha256_hex(b"").len(), 64);
    assert_eq!(FileHasher::new().finish_hex().len(), 64);
}
