use m3u8_queue::task_output::{
    active_line_text, build_cli_args, committed_line_text, lifecycle_event, should_emit_active_line,
    should_emit_committed_line, stderr_log_prefix, ProcessExit, TaskLifecycleEvent,
};

#[test]
fn stderr_stream_does_not_drive_terminal_active_line() {
    assert!(should_emit_active_line(None));
    assert!(!should_emit_active_line(Some("[stderr] ")));
}

#[test]
fn lines_carry_their_stream_prefix() {
    assert_eq!(committed_line_text("boom", Some(stderr_log_prefix())), "[stderr] boom");
    assert_eq!(committed_line_text("fine", None), "fine");
    assert_eq!(active_line_text("", Some("[stderr] ")), "");
    assert_eq!(active_line_text("50%", None), "50%");
    assert!(!should_emit_committed_line(""));
    assert!(should_emit_committed_line("x"));
}

#[test]
fn cli_arguments_include_only_given_options() {
    let args = build_cli_args(
        "https://example.com/a.m3u8",
        "D:/Videos",
        &Some("movie".to_string()),
        &Some(String::new()),
    );
    assert_eq!(
        args,
        vec![
            "https://example.com/a.m3u8",
            "--workDir",
            "D:/Videos",
            "--saveName",
            "movie",
            "--enableDelAfterDone"
        ]
    );
    let args = build_cli_args("u", "d", &None, &Some("Cookie: a".to_string()));
    assert_eq!(args, vec!["u", "--workDir", "d", "--headers", "Cookie: a", "--enableDelAfterDone"]);
}

#[test]
fn finished_processes_yield_lifecycle_events() {
    assert_eq!(
        lifecycle_event("t".to_string(), ProcessExit::Success, Some("D:/a.mp4".to_string())),
        TaskLifecycleEvent::Completed { id: "t".to_string(), output_path: "D:/a.mp4".to_string() }
    );
    assert_eq!(
        lifecycle_event("t".to_string(), ProcessExit::Success, None),
        TaskLifecycleEvent::Completed { id: "t".to_string(), output_path: String::new() }
    );
    assert_eq!(
        lifecycle_event("t".to_string(), ProcessExit::Failure { code: Some(3) }, None),
        TaskLifecycleEvent::Failed {
            id: "t".to_string(),
            error_message: "Process exited with code: 3".to_string()
        }
    );
    assert_eq!(
        lifecycle_event("t".to_string(), ProcessExit::Failure { code: None }, None),
        TaskLifecycleEvent::Failed {
            id: "t".to_string(),
            error_message: "Process exited with code: -1".to_string()
        }
    );
    assert_eq!(
        lifecycle_event("t".to_string(), ProcessExit::WaitError("gone".to_string()), None),
        TaskLifecycleEvent::Failed { id: "t".to_string(), error_message: "Process error: gone".to_string() }
    );
}
