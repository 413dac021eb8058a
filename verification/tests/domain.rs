use m3u8_queue::artifact::ArtifactPackage;
use m3u8_queue::history::{HistoryRecord, HistoryStatus};
use m3u8_queue::retry_policy::{RetryDecision, RetryPolicy};
use m3u8_queue::run_session::{EndRunSessionOutcome, RunSession, TimeSpan};
use m3u8_queue::task::{Task, TaskStatus, Timestamp};
use m3u8_queue::terminal::TerminalTranscript;
use m3u8_queue::terminal_history::history_status_from_task_snapshot;

fn at(secs: i64) -> Timestamp {
    Timestamp { secs, nanos: 0 }
}

#[test]
fn present_artifact_has_ref_value() {
    let artifact = ArtifactPackage::present("task-1".to_string(), "output.mp4".to_string());
    assert!(artifact.is_present());
    assert_eq!(artifact.ref_value(), Some("output.mp4"));
    assert_eq!(artifact.task_id(), "task-1");
}

#[test]
fn absent_artifact_has_no_ref() {
    let artifact = ArtifactPackage::absent("task-1".to_string());
    assert!(!artifact.is_present());
    assert!(artifact.ref_value().is_none());
}

#[test]
fn history_status_is_derived_only_from_terminal_task_status() {
    assert_eq!(
        HistoryStatus::from_task_status(&TaskStatus::Completed),
        Some(HistoryStatus::Completed)
    );
    assert_eq!(
        HistoryStatus::from_task_status(&TaskStatus::Failed),
        Some(HistoryStatus::Failed)
    );
    assert_eq!(HistoryStatus::from_task_status(&TaskStatus::Waiting), None);
    assert_eq!(
        HistoryStatus::from_task_status(&TaskStatus::Downloading),
        None
    );
}

#[test]
fn cancelled_task_has_no_history_status() {
    assert_eq!(HistoryStatus::from_task_status(&TaskStatus::Cancelled), None);
}

#[test]
fn completed_record_has_artifact_and_no_error() {
    let record = HistoryRecord::completed(
        "task-1".to_string(),
        "https://example.com/test.m3u8".to_string(),
        Some("video".to_string()),
        "output.mp4".to_string(),
        at(1700000000),
    );

    assert_eq!(record.status(), HistoryStatus::Completed);
    assert_eq!(record.artifact_ref(), Some("output.mp4"));
    assert!(record.error_message().is_none());
}

#[test]
fn failed_record_has_error_and_no_artifact() {
    let record = HistoryRecord::failed(
        "task-1".to_string(),
        "https://example.com/test.m3u8".to_string(),
        None,
        "network timeout".to_string(),
        at(1700000000),
    );

    assert_eq!(record.status(), HistoryStatus::Failed);
    assert_eq!(record.error_message(), Some("network timeout"));
    assert!(record.artifact_ref().is_none());
}

#[test]
fn history_record_keeps_its_identity() {
    let record = HistoryRecord::completed(
        "task-9".to_string(),
        "https://example.com/9.m3u8".to_string(),
        Some("nine".to_string()),
        "nine.mp4".to_string(),
        at(42),
    );
    assert_eq!(record.task_id(), "task-9");
    assert_eq!(record.url(), "https://example.com/9.m3u8");
    assert_eq!(record.save_name(), Some("nine"));
    assert_eq!(record.completed_at(), at(42));
}

#[test]
fn retries_until_max_retry_count_is_reached() {
    let policy = RetryPolicy::new(2);

    assert_eq!(
        policy.decide(0),
        RetryDecision::Retry {
            next_retry_count: 1
        }
    );
    assert_eq!(
        policy.decide(1),
        RetryDecision::Retry {
            next_retry_count: 2
        }
    );
    assert_eq!(policy.decide(2), RetryDecision::Terminal);
}

#[test]
fn retry_policy_without_retries_fails_at_once() {
    let policy = RetryPolicy::new(0);
    assert_eq!(policy.decide(0), RetryDecision::Terminal);
    assert_eq!(policy.decide(255), RetryDecision::Terminal);
}

#[test]
fn queue_removal_is_allowed_only_for_non_active_tasks() {
    assert!(TaskStatus::Waiting.can_remove_from_queue());
    assert!(TaskStatus::Failed.can_remove_from_queue());
    assert!(TaskStatus::Cancelled.can_remove_from_queue());
    assert!(!TaskStatus::Downloading.can_remove_from_queue());
    assert!(!TaskStatus::Completed.can_remove_from_queue());
}

#[test]
fn live_work_is_waiting_or_downloading() {
    assert!(TaskStatus::Waiting.is_live_work());
    assert!(TaskStatus::Downloading.is_live_work());
    assert!(!TaskStatus::Completed.is_live_work());
    assert!(!TaskStatus::Failed.is_live_work());
    assert!(!TaskStatus::Cancelled.is_live_work());
}

#[test]
fn status_predicates_identify_exact_states() {
    assert!(TaskStatus::Waiting.is_waiting());
    assert!(TaskStatus::Downloading.is_downloading());
    assert!(TaskStatus::Failed.is_failed());
    assert!(TaskStatus::Cancelled.is_cancelled());
    assert!(!TaskStatus::Completed.is_waiting());
    assert!(!TaskStatus::Completed.is_downloading());
    assert!(!TaskStatus::Completed.is_failed());
    assert!(!TaskStatus::Completed.is_cancelled());
}

#[test]
fn new_task_starts_waiting_with_no_terminal_fields() {
    let task = Task::new_queued(
        "task-1".to_string(),
        "https://example.com/test.m3u8".to_string(),
        None,
        None,
        at(0),
    );

    assert_eq!(task.status, TaskStatus::Waiting);
    assert_eq!(task.retry_count, 0);
    assert!(task.error_message.is_none());
}

#[test]
fn new_transcript_is_empty() {
    let transcript = TerminalTranscript::new("task-1".to_string());
    assert!(transcript.is_empty());
    assert_eq!(transcript.line_count(), 0);
    assert!(transcript.active_line().is_none());
}

#[test]
fn commit_line_increments_count_and_clears_active() {
    let mut transcript = TerminalTranscript::new("task-1".to_string());
    transcript.set_active_line("partial".to_string());
    transcript.commit_line("full line");

    assert_eq!(transcript.line_count(), 1);
    assert!(transcript.active_line().is_none());
    assert!(!transcript.is_empty());
}

#[test]
fn active_line_tracks_in_progress_output() {
    let mut transcript = TerminalTranscript::new("task-1".to_string());
    transcript.set_active_line("downloading...".to_string());

    assert_eq!(transcript.active_line(), Some("downloading..."));
    assert!(!transcript.is_empty());

    transcript.clear_active_line();
    assert!(transcript.active_line().is_none());
}

#[test]
fn with_line_count_reconstructs_from_persisted_state() {
    let transcript = TerminalTranscript::with_line_count("task-1".to_string(), 150);
    assert_eq!(transcript.line_count(), 150);
    assert!(transcript.active_line().is_none());
}

#[test]
fn new_session_is_active_with_no_end() {
    let session = RunSession::new("session-1".to_string(), at(1700000000));
    assert!(session.is_active());
    assert_eq!(session.id(), "session-1");
    assert_eq!(session.started_at(), at(1700000000));
    assert!(session.ended_at().is_none());
    assert!(session.duration().is_none());
}

#[test]
fn ending_session_marks_it_ended_with_timestamp() {
    let mut session = RunSession::new("session-1".to_string(), at(1700000000));
    let end_time = at(1700000100);

    let outcome = session.end(end_time);

    assert_eq!(outcome, EndRunSessionOutcome::Ended);
    assert!(!session.is_active());
    assert_eq!(session.ended_at(), Some(end_time));
}

#[test]
fn ending_already_ended_session_is_idempotent() {
    let mut session = RunSession::new("session-1".to_string(), at(1700000000));
    let end_time = at(1700000100);

    session.end(end_time);
    let outcome = session.end(end_time);

    assert_eq!(outcome, EndRunSessionOutcome::AlreadyEnded);
}

#[test]
fn duration_is_computed_from_start_to_end() {
    let mut session = RunSession::new("session-1".to_string(), at(1700000000));
    let end_time = at(1700000100);

    session.end(end_time);

    let duration = session.duration().expect("should have duration");
    assert_eq!(duration.num_seconds(), 100);
}

#[test]
fn second_end_keeps_the_first_end_time() {
    let mut session = RunSession::new("session-1".to_string(), at(10));
    session.end(at(20));
    session.end(at(30));
    assert_eq!(session.ended_at(), Some(at(20)));
}

#[test]
fn negative_span_rounds_toward_zero() {
    let span = TimeSpan::between(
        Timestamp { secs: 10, nanos: 500_000_000 },
        Timestamp { secs: 9, nanos: 0 },
    );
    assert_eq!(span.nanos, -1_500_000_000);
    assert_eq!(span.num_seconds(), -1);
    let forward = TimeSpan::between(Timestamp { secs: 9, nanos: 0 }, Timestamp { secs: 10, nanos: 500_000_000 });
    assert_eq!(forward.num_seconds(), 1);
}

#[test]
fn history_status_of_snapshot_follows_task_status() {
    let mut task = Task::new_queued("t".to_string(), "u".to_string(), None, None, at(0));
    assert_eq!(history_status_from_task_snapshot(&task), None);
    task.status = TaskStatus::Completed;
    assert_eq!(history_status_from_task_snapshot(&task), Some(HistoryStatus::Completed));
    task.status = TaskStatus::Failed;
    assert_eq!(history_status_from_task_snapshot(&task), Some(HistoryStatus::Failed));
    task.status = TaskStatus::Cancelled;
    assert_eq!(history_status_from_task_snapshot(&task), None);
}
