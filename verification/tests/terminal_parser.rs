use m3u8_queue::terminal_parser::{decode_cli_bytes_lossy, take_cli_segment, TerminalBuffer};

#[test]
fn take_cli_segment_splits_on_carriage_return() {
    let (segment, rest) = take_cli_segment(b"Progress: 1/2 (50.00%)\rnext").expect("segment");
    assert_eq!(segment, "Progress: 1/2 (50.00%)");
    assert_eq!(rest, b"next".to_vec());
}

#[test]
fn take_cli_segment_splits_on_line_feed_and_waits_for_a_break() {
    let (segment, rest) = take_cli_segment(b"first\nsecond").expect("segment");
    assert_eq!(segment, "first");
    assert_eq!(rest, b"second".to_vec());
    assert!(take_cli_segment(b"no break yet").is_none());
}

#[test]
fn decode_cli_bytes_lossy_prefers_utf8_when_valid() {
    let bytes = "文件名称：测试".as_bytes();
    assert_eq!(decode_cli_bytes_lossy(bytes), "文件名称：测试");
}

#[test]
fn decode_cli_bytes_lossy_falls_back_for_non_utf8_bytes() {
    let (encoded, _, _) = encoding_rs::GB18030.encode("文件名称：测试");
    assert_eq!(decode_cli_bytes_lossy(&encoded), "文件名称：测试");
}

#[test]
fn decode_cli_bytes_lossy_keeps_plain_ascii() {
    assert_eq!(decode_cli_bytes_lossy(b"Progress: 3/10"), "Progress: 3/10");
    assert_eq!(decode_cli_bytes_lossy(b""), "");
}

#[test]
fn terminal_buffer_cr_overwrites_active_line() {
    let mut buf = TerminalBuffer::new();
    buf.feed(b"Progress: 1/10\rProgress: 2/10\rProgress: 3/10");
    assert_eq!(buf.active_line(), "Progress: 3/10");
    assert!(buf.take_committed().is_empty());
}

#[test]
fn terminal_buffer_lf_commits_to_history() {
    let mut buf = TerminalBuffer::new();
    buf.feed(b"line one\nline two\n");
    let committed = buf.take_committed();
    assert_eq!(committed, vec!["line one", "line two"]);
    assert_eq!(buf.active_line(), "");
}

#[test]
fn terminal_buffer_mixed_cr_and_lf() {
    let mut buf = TerminalBuffer::new();
    buf.feed(b"Starting download\nProgress: 1/10\rProgress: 2/10\rProgress: 3/10\nDone\n");
    let committed = buf.take_committed();
    assert_eq!(
        committed,
        vec!["Starting download", "Progress: 3/10", "Done"]
    );
    assert_eq!(buf.active_line(), "");
}

#[test]
fn terminal_buffer_keeps_progress_reporter_line_active_after_trailing_cr() {
    let mut buf = TerminalBuffer::new();
    buf.feed(b"\rProgress: 1/10 (10.00%) -- 1MB/10MB\r");
    assert_eq!(buf.active_line(), "Progress: 1/10 (10.00%) -- 1MB/10MB");
    assert!(buf.take_committed().is_empty());
}

#[test]
fn terminal_buffer_overwrites_progress_reporter_line_without_committing_history() {
    let mut buf = TerminalBuffer::new();
    buf.feed(b"\rProgress: 1/10 (10.00%) -- 1MB/10MB\r\rProgress: 2/10 (20.00%) -- 2MB/10MB\r");
    assert_eq!(buf.active_line(), "Progress: 2/10 (20.00%) -- 2MB/10MB");
    assert!(buf.take_committed().is_empty());
}

#[test]
fn terminal_buffer_replaces_longer_progress_tail_with_shorter_status_line() {
    let mut buf = TerminalBuffer::new();
    buf.feed(
        b"\rProgress: 1650/1657 (99.58%) -- 1.14 GB/1.15 GB (793.51 KB/s @ 00m06s18s))\r\r11:07:37.504 \xe5\xb7\xb2\xe4\xb8\x8b\xe8\xbd\xbd\xe5\xae\x8c\xe6\x88\x90\r",
    );
    assert_eq!(buf.active_line(), "11:07:37.504 已下载完成");
    assert!(buf.take_committed().is_empty());
}

#[test]
fn terminal_buffer_does_not_commit_progress_line_when_logger_prints_next_line() {
    let mut buf = TerminalBuffer::new();
    buf.feed(
        b"\rProgress: 3/10 (30.00%) -- 3MB/10MB\r\r                                        \r11:00:00.000 \xe7\xad\x89\xe5\xbe\x85\xe4\xb8\x8b\xe8\xbd\xbd\xe5\xae\x8c\xe6\x88\x90...\n",
    );
    let committed = buf.take_committed();
    assert_eq!(committed, vec!["11:00:00.000 等待下载完成..."]);
    assert_eq!(buf.active_line(), "");
}

#[test]
fn terminal_buffer_crlf_treated_as_newline() {
    let mut buf = TerminalBuffer::new();
    buf.feed(b"hello\r\nworld\r\n");
    let committed = buf.take_committed();
    assert_eq!(committed, vec!["hello", "world"]);
}

#[test]
fn terminal_buffer_finish_commits_trailing_active_line() {
    let mut buf = TerminalBuffer::new();
    buf.feed(b"trailing text");
    assert_eq!(buf.active_line(), "trailing text");
    buf.finish();
    let committed = buf.take_committed();
    assert_eq!(committed, vec!["trailing text"]);
}

#[test]
fn feeding_in_pieces_equals_feeding_at_once() {
    let whole = b"Starting\nProgress: 1/10\rProgress: 2/10\nDone\n";
    let mut at_once = TerminalBuffer::new();
    at_once.feed(whole);
    let mut in_pieces = TerminalBuffer::new();
    in_pieces.feed(&whole[..7]);
    in_pieces.feed(&whole[7..20]);
    in_pieces.feed(&whole[20..]);
    assert_eq!(at_once.take_committed(), in_pieces.take_committed());
    assert_eq!(at_once.active_line(), in_pieces.active_line());
}

#[test]
fn take_committed_empties_the_committed_lines() {
    let mut buf = TerminalBuffer::new();
    buf.feed(b"one\ntwo\n");
    assert_eq!(buf.take_committed().len(), 2);
    assert!(buf.take_committed().is_empty());
}

#[test]
fn feeding_two_utf8_pieces_matches_feeding_them_at_once() {
    let a = "下载中 50%\r".as_bytes();
    let b = "\n完成\r\nnext".as_bytes();
    let mut split = TerminalBuffer::new();
    split.feed(a);
    split.feed(b);
    let mut whole = TerminalBuffer::new();
    whole.feed(&[a, b].concat());
    assert_eq!(split.active_line(), whole.active_line());
    assert_eq!(split.take_committed(), whole.take_committed());
    assert_eq!(whole.active_line(), "next");
}
