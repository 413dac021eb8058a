use m3u8_queue::progress_parser::{
    parse_speed, parse_threads, progress_count_text, progress_percent_text, speed_from_captures,
    threads_from_captures,
};

#[test]
fn parse_speed_reads_cli_speed_units() {
    assert_eq!(
        parse_speed("(1.5 MB/s @ 00:01:00)").as_deref(),
        Some("1.5 MB/s")
    );
}

#[test]
fn parse_speed_reads_real_cli_progress_reporter_line() {
    let line = "12:34:56.789 Progress: 10/40 (25.00%) -- 1.00MB/4.00MB (512.5KB/s @ 00:00:06)";
    assert_eq!(parse_speed(line).as_deref(), Some("512.5KB/s"));
    assert_eq!(parse_speed("no speed here"), None);
}

#[test]
fn parse_threads_reads_common_cli_formats() {
    assert_eq!(parse_threads("Threads: 16").as_deref(), Some("16"));
    assert_eq!(parse_threads("16 threads active").as_deref(), Some("16"));
}

#[test]
fn parse_threads_ignores_lines_without_a_count() {
    assert_eq!(parse_threads("downloading"), None);
}

#[test]
fn progress_percent_is_read_with_dot_decimal() {
    assert_eq!(
        progress_percent_text("Progress: 10/40 (25.00%) -- 1.0MB/4.0MB").as_deref(),
        Some("25.00")
    );
    assert_eq!(
        progress_percent_text("Progress: 1/4 (25,00%) -- 1MB/4MB").as_deref(),
        Some("25.00")
    );
    assert_eq!(progress_percent_text("speed only 1.5 MB/s"), None);
}

#[test]
fn progress_count_is_read_as_done_and_total() {
    assert_eq!(
        progress_count_text("Progress: 2/8 -- 1MB/4MB"),
        Some(("2".to_string(), "8".to_string()))
    );
    assert_eq!(progress_count_text("speed only 1.5 MB/s"), None);
}

#[test]
fn capture_results_are_read_by_group() {
    assert_eq!(
        speed_from_captures(Some(vec![Some("x".to_string()), Some(" 2 MB/s ".to_string())])),
        Some("2 MB/s".to_string())
    );
    assert_eq!(speed_from_captures(Some(vec![Some("x".to_string())])), None);
    assert_eq!(speed_from_captures(None), None);
    assert_eq!(
        threads_from_captures(Some(vec![Some("8 threads".to_string()), None, Some("8".to_string())])),
        Some("8".to_string())
    );
    assert_eq!(
        threads_from_captures(Some(vec![Some("Threads: 4".to_string()), Some("4".to_string())])),
        Some("4".to_string())
    );
}
