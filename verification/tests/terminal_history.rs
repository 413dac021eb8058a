use m3u8_queue::app_error::AppError;
use m3u8_queue::history::HistoryStatus;
use m3u8_queue::queue::{QueueAggregate, QueueCurrentTask, QueuePendingHistory, QueueRunStatus, QueueTasks};
use m3u8_queue::task::{Task, TaskStatus, Timestamp};
use m3u8_queue::terminal_history::{
    flush_pending_history_tasks, handle_completed_task_history, handle_terminal_failure_task_history,
    TerminalHistoryRecordOutcome,
};
use std::cell::RefCell;

fn task(id: &str, status: TaskStatus) -> Task {
    let mut t = Task::new_queued(id.to_string(), "https://example.com/test.m3u8".to_string(), None, None, Timestamp { secs: 0, nanos: 0 });
    t.status = status;
    t
}

#[test]
fn completed_task_is_staged_then_flushed() {
    let mut state = QueueAggregate {
        tasks: QueueTasks::from_tasks(vec![task("task-1", TaskStatus::Downloading)]),
        current_task: QueueCurrentTask::from_task_id(Some("task-1".to_string())),
        run_status: QueueRunStatus::Running,
        ..QueueAggregate::default()
    };
    let written = RefCell::new(Vec::new());
    let r = handle_completed_task_history(&mut state, "task-1", |t: &Task| {
        written.borrow_mut().push(t.id.clone());
        Ok(())
    })
    .unwrap();
    assert!(matches!(r, TerminalHistoryRecordOutcome::Recorded(ref t) if t.status == TaskStatus::Completed));
    assert_eq!(*written.borrow(), vec!["task-1".to_string()]);
    assert!(state.tasks().is_empty());
    assert!(state.pending_history_tasks().is_empty());
    assert!(state.current_task_id().is_none());
}

#[test]
fn completed_task_stays_pending_when_history_append_fails() {
    let mut state = QueueAggregate {
        tasks: QueueTasks::from_tasks(vec![task("task-1", TaskStatus::Downloading)]),
        current_task: QueueCurrentTask::from_task_id(Some("task-1".to_string())),
        ..QueueAggregate::default()
    };
    let r = handle_completed_task_history(&mut state, "task-1", |_: &Task| Err(AppError::Message("blocked".to_string())));
    assert!(r.is_err());
    assert!(state.tasks().iter().all(|t| t.id != "task-1"));
    assert!(state.current_task_id().is_none());
    assert_eq!(state.pending_history_tasks().len(), 1);
    assert_eq!(state.pending_history_tasks()[0].id, "task-1");
    assert_eq!(state.pending_history_tasks()[0].status, TaskStatus::Completed);
}

#[test]
fn terminal_failure_does_not_append_stale_task_without_queue_record() {
    let mut state = QueueAggregate::default();
    let called = RefCell::new(false);
    let r = handle_terminal_failure_task_history(&mut state, "stale", |_: &Task| {
        *called.borrow_mut() = true;
        Ok(())
    })
    .expect("stale terminal record should be ignored");
    assert!(matches!(r, TerminalHistoryRecordOutcome::Ignored));
    assert!(!*called.borrow());
}

#[test]
fn failed_task_is_recorded_with_failed_status() {
    let mut state = QueueAggregate {
        tasks: QueueTasks::from_tasks(vec![task("task-1", TaskStatus::Failed)]),
        ..QueueAggregate::default()
    };
    let r = handle_terminal_failure_task_history(&mut state, "task-1", |_: &Task| Ok(())).unwrap();
    assert!(matches!(r, TerminalHistoryRecordOutcome::Recorded(ref t) if t.status == TaskStatus::Failed));
    assert!(state.tasks().is_empty());
}

#[test]
fn pending_completed_history_task_flushes_after_restart() {
    let mut state = QueueAggregate {
        pending_history: QueuePendingHistory::from_tasks(vec![
            task("done", TaskStatus::Completed),
            task("broken", TaskStatus::Failed),
        ]),
        ..QueueAggregate::default()
    };
    state.normalize_after_restart();
    let flushed = flush_pending_history_tasks(&mut state, |_: &Task| Ok(())).unwrap();
    assert_eq!(flushed.len(), 2);
    assert_eq!(flushed[0].status, HistoryStatus::Completed);
    assert_eq!(flushed[0].task.id, "done");
    assert_eq!(flushed[1].status, HistoryStatus::Failed);
    assert!(state.pending_history_tasks().is_empty());
}

#[test]
fn flush_stops_at_first_failure_and_keeps_the_rest_pending() {
    let mut state = QueueAggregate {
        pending_history: QueuePendingHistory::from_tasks(vec![
            task("a", TaskStatus::Completed),
            task("b", TaskStatus::Completed),
        ]),
        ..QueueAggregate::default()
    };
    let r = flush_pending_history_tasks(&mut state, |t: &Task| {
        if t.id == "b" {
            Err(AppError::Message("full".to_string()))
        } else {
            Ok(())
        }
    });
    assert!(r.is_err());
    assert_eq!(state.pending_history_tasks().len(), 1);
    assert_eq!(state.pending_history_tasks()[0].id, "b");
}

#[test]
fn recording_a_task_keeps_another_current_task() {
    let mut state = QueueAggregate {
        tasks: QueueTasks::from_tasks(vec![task("task-1", TaskStatus::Failed), task("task-2", TaskStatus::Downloading)]),
        current_task: QueueCurrentTask::from_task_id(Some("task-2".to_string())),
        run_status: QueueRunStatus::Running,
        ..QueueAggregate::default()
    };
    let r = handle_terminal_failure_task_history(&mut state, "task-1", |_: &Task| Ok(())).unwrap();
    assert!(matches!(r, TerminalHistoryRecordOutcome::Recorded(_)));
    assert_eq!(state.current_task_id(), Some("task-2"));
    assert!(state.is_running());
}
