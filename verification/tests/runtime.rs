use m3u8_queue::app_error::AppError;
use m3u8_queue::cli_output::CliOutputStore;
use m3u8_queue::models::{AddTaskPayload, AppSettings, CloseButtonBehavior, QueueState, Task, TaskStatus};
use m3u8_queue::queue_manager::QueueManager;
use m3u8_queue::runtime::{
    apply_settings_update, begin_queue_start, finish_idle_run, handle_start_failure,
    history_removal_result, maybe_start_shutdown_countdown, record_completed_task,
    record_terminal_failure_task, retry_or_requeue, settle_task_completion, settle_task_failure,
    CompletionSettlement, FailureSettlement, IdleRunOutcome,
};
use m3u8_queue::settings_store::SettingsStore;
use m3u8_queue::shutdown::ShutdownManager;
use std::cell::RefCell;

fn saved_ok(_: &QueueState) -> Result<(), String> {
    Ok(())
}

fn saved_err(_: &QueueState) -> Result<(), String> {
    Err("queue file blocked".to_string())
}

fn appended_ok(_: &Task) -> Result<(), AppError> {
    Ok(())
}

fn appended_err(_: &Task) -> Result<(), AppError> {
    Err(AppError::Message("history blocked".to_string()))
}

fn running_manager_with_task() -> (QueueManager, Task) {
    let mut manager = QueueManager::new("q.json".to_string(), None);
    let (task, _) = manager
        .add_task(
            AddTaskPayload { url: "https://example.com/test.m3u8".to_string(), save_name: None, headers: None },
            saved_ok,
        )
        .unwrap();
    manager.set_running(true, saved_ok).unwrap();
    manager.schedule_next(saved_ok).unwrap().expect("scheduled");
    (manager, task)
}

fn settings(auto: bool) -> AppSettings {
    AppSettings { close_button_behavior: CloseButtonBehavior::CloseToTray, auto_action_on_complete: auto, download_dir: None }
}

#[test]
fn completed_task_is_recorded_and_leaves_queue() {
    let (mut manager, task) = running_manager_with_task();
    let written: RefCell<Vec<Task>> = RefCell::new(Vec::new());
    let result = record_completed_task(&mut manager, &task.id, "D:/Videos/test.mp4", |t| {
        written.borrow_mut().push(t.clone());
        Ok(())
    }, saved_ok);
    let recorded = result.expect("recorded").expect("task");
    assert_eq!(recorded.status, TaskStatus::Completed);
    assert_eq!(written.borrow().len(), 1);
    assert_eq!(written.borrow()[0].output_path.as_deref(), Some("D:/Videos/test.mp4"));
    assert!(manager.get_state().tasks.is_empty());
    assert!(manager.get_state().current_task_id.is_none());
}

#[test]
fn completed_task_finalizes_queue_when_history_append_fails() {
    let (mut manager, task) = running_manager_with_task();
    let result = record_completed_task(&mut manager, &task.id, "D:/Videos/test.mp4", appended_err, saved_ok);
    assert!(matches!(result, Err(AppError::Message(m)) if m == "history blocked"));
    let state = manager.get_state();
    assert!(state.tasks.iter().all(|t| t.id != task.id));
    assert!(state.current_task_id.is_none());
}

#[test]
fn queue_save_error_is_reported_before_history_error() {
    let (mut manager, task) = running_manager_with_task();
    let result = record_completed_task(&mut manager, &task.id, "x", appended_err, saved_err);
    assert!(matches!(result, Err(AppError::Message(m)) if m == "queue file blocked"));
}

#[test]
fn completion_of_unknown_task_is_ignored() {
    let (mut manager, _) = running_manager_with_task();
    let called = RefCell::new(false);
    let result = record_completed_task(&mut manager, "stale", "x", |_| {
        *called.borrow_mut() = true;
        Ok(())
    }, saved_ok);
    assert!(matches!(result, Ok(None)));
    assert!(!*called.borrow());
    assert_eq!(manager.get_state().tasks.len(), 1);
}

#[test]
fn terminal_failure_finalizes_queue_when_history_append_fails() {
    let (mut manager, task) = running_manager_with_task();
    let mut ended = task.clone();
    ended.status = TaskStatus::Failed;
    let result = record_terminal_failure_task(&mut manager, &task.id, ended, appended_err, saved_ok);
    assert!(result.is_err());
    let state = manager.get_state();
    assert!(state.tasks.iter().all(|t| t.id != task.id));
    assert!(state.current_task_id.is_none());
}

#[test]
fn handle_start_failure_reports_retry_scheduled() {
    let (mut manager, task) = running_manager_with_task();
    let result = handle_start_failure(&mut manager, &task.id, "spawn failed", appended_ok, saved_ok);
    assert!(matches!(result, Ok(None)));
    let state = manager.get_state();
    assert_eq!(state.tasks[0].retry_count, 1);
    assert_eq!(state.tasks[0].status, TaskStatus::Waiting);
    assert!(state.current_task_id.is_none());
}

#[test]
fn handle_start_failure_persists_terminal_task_to_history() {
    let (mut manager, task) = running_manager_with_task();
    handle_start_failure(&mut manager, &task.id, "one", appended_ok, saved_ok).unwrap();
    manager.schedule_next(saved_ok).unwrap().expect("again");
    handle_start_failure(&mut manager, &task.id, "two", appended_ok, saved_ok).unwrap();
    manager.schedule_next(saved_ok).unwrap().expect("again");
    let written: RefCell<Vec<Task>> = RefCell::new(Vec::new());
    let result = handle_start_failure(&mut manager, &task.id, "three", |t| {
        written.borrow_mut().push(t.clone());
        Ok(())
    }, saved_ok);
    let recorded = result.unwrap().expect("terminal");
    assert_eq!(recorded.status, TaskStatus::Failed);
    assert_eq!(recorded.error_message.as_deref(), Some("three"));
    assert_eq!(written.borrow().len(), 1);
    assert!(manager.get_state().tasks.is_empty());
}

#[test]
fn terminal_failed_child_exit_marks_run_failure_for_shutdown_countdown() {
    let (mut manager, task) = running_manager_with_task();
    let mut shutdown = ShutdownManager::new();
    let mut output = CliOutputStore::new("out".to_string());
    for _ in 0..2 {
        let s = settle_task_failure(&mut manager, &mut shutdown, &mut output, &task.id, "retryable", appended_ok, saved_ok);
        assert!(matches!(s, FailureSettlement::Continue));
        manager.schedule_next(saved_ok).unwrap().expect("again");
    }
    assert!(shutdown.should_start_countdown());
    let s = settle_task_failure(&mut manager, &mut shutdown, &mut output, &task.id, "terminal failure", appended_ok, saved_ok);
    assert!(matches!(s, FailureSettlement::Recorded(_)));
    assert!(!shutdown.should_start_countdown());
}

#[test]
fn failures_and_completions_are_ignored_while_shutting_down() {
    let (mut manager, task) = running_manager_with_task();
    manager.prepare_for_exit(saved_ok).unwrap();
    let mut shutdown = ShutdownManager::new();
    let mut output = CliOutputStore::new("out".to_string());
    let s = settle_task_failure(&mut manager, &mut shutdown, &mut output, &task.id, "killed", appended_ok, saved_ok);
    assert!(matches!(s, FailureSettlement::ShuttingDown));
    let c = settle_task_completion(&mut manager, &mut output, &task.id, "x", appended_ok, saved_ok);
    assert!(matches!(c, CompletionSettlement::ShuttingDown));
    assert_eq!(manager.get_state().tasks.len(), 1);
}

#[test]
fn completed_run_with_auto_shutdown_enabled_starts_countdown() {
    let (mut manager, task) = running_manager_with_task();
    let mut shutdown = ShutdownManager::new();
    let mut output = CliOutputStore::new("out".to_string());
    let c = settle_task_completion(&mut manager, &mut output, &task.id, "x", appended_ok, saved_ok);
    assert!(matches!(c, CompletionSettlement::Recorded(_)));
    let outcome = finish_idle_run(&mut manager, &mut shutdown, &settings(true), saved_ok, |_| Ok(()));
    assert!(matches!(outcome, IdleRunOutcome::Finished { countdown: Some(60) }));
    assert!(shutdown.countdown_pending());
    assert!(!manager.get_state().is_running);
}

#[test]
fn idle_run_without_auto_action_starts_no_countdown() {
    let (mut manager, task) = running_manager_with_task();
    let mut shutdown = ShutdownManager::new();
    let mut output = CliOutputStore::new("out".to_string());
    settle_task_completion(&mut manager, &mut output, &task.id, "x", appended_ok, saved_ok);
    let outcome = finish_idle_run(&mut manager, &mut shutdown, &settings(false), saved_ok, |_| Ok(()));
    assert!(matches!(outcome, IdleRunOutcome::Finished { countdown: None }));
    assert!(!shutdown.countdown_pending());
}

#[test]
fn busy_run_is_not_finished() {
    let (mut manager, _) = running_manager_with_task();
    let mut shutdown = ShutdownManager::new();
    let outcome = finish_idle_run(&mut manager, &mut shutdown, &settings(true), saved_ok, |_| Ok(()));
    assert!(matches!(outcome, IdleRunOutcome::NotIdle));
    assert!(manager.get_state().is_running);
}

#[test]
fn countdown_is_not_started_while_work_remains() {
    let (manager, _) = running_manager_with_task();
    let mut shutdown = ShutdownManager::new();
    let r = maybe_start_shutdown_countdown(&manager, &mut shutdown, &settings(true), |_| Ok(()));
    assert_eq!(r, Ok(None));
}

#[test]
fn switching_auto_action_off_cancels_countdown() {
    let mut store = SettingsStore::new("s.json".to_string(), Some(settings(true)));
    let mut shutdown = ShutdownManager::new();
    shutdown.start_countdown(|_| Ok(())).unwrap();
    let update = apply_settings_update(&mut store, &mut shutdown, settings(false), |_| Ok(()), || Ok(())).unwrap();
    assert!(update.countdown_cancelled);
    assert!(!shutdown.countdown_pending());
    assert!(!shutdown.should_start_countdown());
    let update = apply_settings_update(&mut store, &mut shutdown, settings(true), |_| Ok(()), || Ok(())).unwrap();
    assert!(!update.countdown_cancelled);
    assert!(shutdown.should_start_countdown());
}

#[test]
fn unsaved_settings_change_nothing() {
    let mut store = SettingsStore::new("s.json".to_string(), Some(settings(true)));
    let mut shutdown = ShutdownManager::new();
    let r = apply_settings_update(&mut store, &mut shutdown, settings(false), |_| Err("no".to_string()), || Ok(()));
    assert_eq!(r.err(), Some("no".to_string()));
    assert!(store.get().auto_action_on_complete);
}

#[test]
fn missing_history_task_is_reported() {
    assert!(history_removal_result(true, "t").is_ok());
    let r = history_removal_result(false, "t-9");
    assert!(matches!(r, Err(AppError::Message(m)) if m == "History task t-9 not found"));
}

#[test]
fn retry_falls_back_to_history() {
    let mut manager = QueueManager::new("q.json".to_string(), None);
    let mut old = Task::new("https://example.com/h.m3u8".to_string(), None, None);
    old.status = TaskStatus::Failed;
    let old_id = old.id.clone();
    let r = retry_or_requeue(&mut manager, &old_id, |_| Ok(Some(old.clone())), saved_ok).unwrap();
    assert_eq!(r.url, "https://example.com/h.m3u8");
    assert_eq!(r.status, TaskStatus::Waiting);
    assert_eq!(manager.get_state().tasks.len(), 1);
    let missing = retry_or_requeue(&mut manager, "nowhere", |_| Ok(None), saved_ok);
    assert!(matches!(missing, Err(AppError::TaskNotFound { id }) if id == "nowhere"));
}

#[test]
fn starting_the_queue_runs_only_with_live_work() {
    let mut manager = QueueManager::new("q.json".to_string(), None);
    let mut shutdown = ShutdownManager::new();
    let start = begin_queue_start(&mut manager, &mut shutdown, || Ok(()), saved_ok).unwrap();
    assert!(!start.countdown_cancelled);
    assert_eq!(start.outcome.ok(), Some(false));
    assert!(!manager.get_state().is_running);
    manager
        .add_task(AddTaskPayload { url: "u".to_string(), save_name: None, headers: None }, saved_ok)
        .unwrap();
    shutdown.start_countdown(|_| Ok(())).unwrap();
    let start = begin_queue_start(&mut manager, &mut shutdown, || Ok(()), saved_ok).unwrap();
    assert!(start.countdown_cancelled);
    assert_eq!(start.outcome.ok(), Some(true));
    assert!(manager.get_state().is_running);
}

#[test]
fn settled_task_forgets_its_active_output_line() {
    let (mut manager, task) = running_manager_with_task();
    let mut shutdown = ShutdownManager::new();
    let mut output = CliOutputStore::new("out".to_string());
    output.set_active_line(&task.id, "[download] 40%".to_string());
    output.set_active_line("other", "[download] 10%".to_string());
    let s = settle_task_failure(&mut manager, &mut shutdown, &mut output, &task.id, "retryable", appended_ok, saved_ok);
    assert!(matches!(s, FailureSettlement::Continue));
    assert_eq!(output.get_active_line(&task.id), None);
    assert_eq!(output.get_active_line("other").as_deref(), Some("[download] 10%"));
    manager.schedule_next(saved_ok).unwrap().expect("again");
    output.set_active_line(&task.id, "[download] 90%".to_string());
    let c = settle_task_completion(&mut manager, &mut output, &task.id, "x", appended_ok, saved_ok);
    assert!(matches!(c, CompletionSettlement::Recorded(_)));
    assert_eq!(output.get_active_line(&task.id), None);
}

#[test]
fn failure_whose_queue_save_fails_is_reported_as_prepare_failure() {
    let (mut manager, task) = running_manager_with_task();
    let mut shutdown = ShutdownManager::new();
    let mut output = CliOutputStore::new("out".to_string());
    let s = settle_task_failure(&mut manager, &mut shutdown, &mut output, &task.id, "boom", appended_ok, saved_err);
    match s {
        FailureSettlement::PrepareFailed(AppError::Message(m)) => assert_eq!(m, "queue file blocked"),
        _ => panic!("expected a failed preparation"),
    }
    assert!(shutdown.should_start_countdown());
}

#[test]
fn idle_run_whose_save_fails_stops_and_reports_the_error() {
    let mut manager = QueueManager::new("q.json".to_string(), None);
    manager.set_running(true, saved_ok).unwrap();
    let mut shutdown = ShutdownManager::new();
    let outcome = finish_idle_run(&mut manager, &mut shutdown, &settings(true), saved_err, |_| Ok(()));
    match outcome {
        IdleRunOutcome::Failed(AppError::Message(m)) => assert_eq!(m, "queue file blocked"),
        _ => panic!("expected the save error"),
    }
    assert!(!manager.get_state().is_running);
    assert!(!shutdown.countdown_pending());
}

#[test]
fn start_failure_for_good_reports_a_failed_history_write() {
    let (mut manager, task) = running_manager_with_task();
    for _ in 0..2 {
        assert!(matches!(handle_start_failure(&mut manager, &task.id, "spawn", appended_ok, saved_ok), Ok(None)));
        manager.schedule_next(saved_ok).unwrap().expect("again");
    }
    match handle_start_failure(&mut manager, &task.id, "spawn", appended_err, saved_ok) {
        Err(AppError::Message(m)) => assert_eq!(m, "history blocked"),
        _ => panic!("expected the history error"),
    }
    assert!(manager.get_state().tasks.is_empty());
}
