use m3u8_queue::app_error::AppError;
use m3u8_queue::models::{AddTaskPayload, QueueState, Task, TaskStatus, PROGRESS_DONE, PROGRESS_NONE};
use m3u8_queue::persistence::{Persistence, QUEUE_STATE_VERSION};
use m3u8_queue::queue_manager::{QueueManager, TaskFailureTransition};
use std::cell::RefCell;

fn saved_ok(_: &QueueState) -> Result<(), String> {
    Ok(())
}

fn saved_err(_: &QueueState) -> Result<(), String> {
    Err("disk full".to_string())
}

fn payload(url: &str, save_name: Option<&str>) -> AddTaskPayload {
    AddTaskPayload {
        url: url.to_string(),
        save_name: save_name.map(|s| s.to_string()),
        headers: None,
    }
}

fn manager() -> QueueManager {
    QueueManager::new("queue_state.json".to_string(), None)
}

#[test]
fn add_task_keeps_paused_queue_paused() {
    let mut manager = manager();
    manager.set_running(false, saved_ok).expect("persist running state");

    let (_, should_schedule) = manager
        .add_task(payload("https://example.com/paused.m3u8", None), saved_ok)
        .expect("add task");
    let state = manager.get_state();

    assert!(!state.is_running);
    assert!(!should_schedule);
}

#[test]
fn add_task_requests_schedule_when_queue_is_running_and_idle() {
    let mut manager = manager();
    manager.set_running(true, saved_ok).expect("persist running state");

    let (_, should_schedule) = manager
        .add_task(payload("https://example.com/running.m3u8", None), saved_ok)
        .expect("add task");
    let state = manager.get_state();

    assert!(state.is_running);
    assert!(should_schedule);
}

#[test]
fn add_task_reports_persistence_failure() {
    let mut manager = manager();
    let result = manager.add_task(payload("https://example.com/running.m3u8", None), saved_err);
    assert!(matches!(result, Err(AppError::Message(m)) if m == "disk full"));
    assert_eq!(manager.get_state().tasks.len(), 1);
}

#[test]
fn added_task_is_new_and_waiting() {
    let mut manager = manager();
    let (task, _) = manager
        .add_task(payload("https://example.com/a.m3u8", Some("a")), saved_ok)
        .expect("add task");
    assert_eq!(task.id.len(), 36);
    assert_eq!(task.status, TaskStatus::Waiting);
    assert_eq!(task.save_name.as_deref(), Some("a"));
    assert_eq!(task.progress_bits, PROGRESS_NONE);
    assert_eq!(manager.get_state().tasks[0].id, task.id);
}

#[test]
fn prepare_for_exit_resets_downloading_state() {
    let mut manager = manager();
    manager.set_running(true, saved_ok).expect("persist running state");
    let (task, _) = manager
        .add_task(payload("https://example.com/running.m3u8", None), saved_ok)
        .expect("add task");
    manager
        .schedule_next(saved_ok)
        .expect("persist scheduled task")
        .expect("schedule first task");
    manager.update_task_progress(
        &task.id,
        Some(0.5f32.to_bits()),
        Some("1 MB/s".to_string()),
        None,
    );

    manager.prepare_for_exit(saved_ok).expect("prepare exit");

    let state = manager.get_state();
    let prepared = state.tasks.iter().find(|t| t.id == task.id).expect("task exists");
    assert!(!state.is_running);
    assert!(state.current_task_id.is_none());
    assert_eq!(prepared.status, TaskStatus::Waiting);
    assert_eq!(f32::from_bits(prepared.progress_bits), 0.0);
    assert!(prepared.speed.is_empty());
}

#[test]
fn prepare_for_exit_ignores_late_child_failure() {
    let mut manager = manager();
    manager.set_running(true, saved_ok).expect("persist running state");
    let (task, _) = manager
        .add_task(payload("https://example.com/running.m3u8", None), saved_ok)
        .expect("add task");
    manager
        .schedule_next(saved_ok)
        .expect("persist scheduled task")
        .expect("schedule first task");

    manager.prepare_for_exit(saved_ok).expect("prepare exit");
    let transition = manager
        .prepare_task_failure(&task.id, "killed during shutdown", saved_ok)
        .expect("prepare task failure");

    let state = manager.get_state();
    let prepared = state.tasks.iter().find(|t| t.id == task.id).expect("task exists");
    assert!(transition.is_none());
    assert!(!state.is_running);
    assert!(state.current_task_id.is_none());
    assert_eq!(prepared.status, TaskStatus::Waiting);
    assert_eq!(prepared.retry_count, 0);
}

#[test]
fn reorder_waiting_tasks_persists_across_reload() {
    let saved: RefCell<Option<QueueState>> = RefCell::new(None);
    let persist = |s: &QueueState| {
        *saved.borrow_mut() = Some(s.clone());
        Ok(())
    };
    let mut manager = manager();
    let (first, _) = manager
        .add_task(payload("https://example.com/1.m3u8", Some("first")), persist)
        .expect("add first task");
    let (second, _) = manager
        .add_task(payload("https://example.com/2.m3u8", Some("second")), persist)
        .expect("add second task");
    let (third, _) = manager
        .add_task(payload("https://example.com/3.m3u8", Some("third")), persist)
        .expect("add third task");

    manager.set_running(true, persist).expect("persist running state");
    manager
        .schedule_next(persist)
        .expect("persist scheduled task")
        .expect("schedule first task");
    manager
        .reorder_tasks(vec![third.id.clone(), second.id.clone()], persist)
        .expect("reorder waiting tasks");

    let state = manager.get_state();
    let ids: Vec<_> = state.tasks.iter().map(|task| task.id.clone()).collect();
    assert_eq!(ids, vec![first.id.clone(), third.id.clone(), second.id.clone()]);

    let stored = saved.borrow().clone().expect("saved state");
    let restored = Persistence::restore(QUEUE_STATE_VERSION, stored).expect("current version");
    let reloaded = QueueManager::new("queue_state.json".to_string(), Some(restored));
    let reloaded_ids: Vec<_> = reloaded.get_state().tasks.iter().map(|task| task.id.clone()).collect();
    assert_eq!(reloaded_ids, ids);
}

#[test]
fn remove_task_allows_waiting_and_failed_only() {
    let mut manager = manager();
    let (a, _) = manager.add_task(payload("a", None), saved_ok).unwrap();
    let (b, _) = manager.add_task(payload("b", None), saved_ok).unwrap();
    manager.set_running(true, saved_ok).unwrap();
    manager.schedule_next(saved_ok).unwrap();
    let refused = manager.remove_task(&a.id, saved_ok);
    assert!(matches!(
        refused,
        Err(AppError::InvalidTaskStatus { ref action, ref id, status: TaskStatus::Downloading })
            if action == "remove" && *id == a.id
    ));
    manager.remove_task(&b.id, saved_ok).expect("remove waiting task");
    assert_eq!(manager.get_state().tasks.len(), 1);
    let missing = manager.remove_task("missing", saved_ok);
    assert!(matches!(missing, Err(AppError::TaskNotFound { id }) if id == "missing"));
}

#[test]
fn failed_task_retries_then_fails_for_good() {
    let mut manager = manager();
    let (task, _) = manager.add_task(payload("a", None), saved_ok).unwrap();
    manager.set_running(true, saved_ok).unwrap();
    for round in 1..=2u8 {
        manager.schedule_next(saved_ok).unwrap().expect("scheduled");
        let t = manager.prepare_task_failure(&task.id, "boom", saved_ok).unwrap();
        assert!(matches!(t, Some(TaskFailureTransition::RetryScheduled)));
        let state = manager.get_state();
        assert_eq!(state.tasks[0].retry_count, round);
        assert_eq!(state.tasks[0].status, TaskStatus::Waiting);
        assert!(state.current_task_id.is_none());
    }
    manager.schedule_next(saved_ok).unwrap().expect("scheduled");
    let t = manager.prepare_task_failure(&task.id, "final", saved_ok).unwrap();
    let Some(TaskFailureTransition::Terminal(ended)) = t else {
        panic!("third failure is terminal");
    };
    assert_eq!(ended.status, TaskStatus::Failed);
    assert_eq!(ended.error_message.as_deref(), Some("final"));
    let state = manager.get_state();
    assert_eq!(state.current_task_id.as_deref(), Some(task.id.as_str()));
    assert_eq!(state.tasks[0].status, TaskStatus::Downloading);
    assert!(manager.finalize_terminal_failure(&task.id, saved_ok).unwrap());
    assert!(manager.get_state().tasks.is_empty());
    assert!(manager.get_state().current_task_id.is_none());
}

#[test]
fn retry_task_clears_a_failed_task() {
    let mut manager = manager();
    let (task, _) = manager.add_task(payload("a", None), saved_ok).unwrap();
    let waiting = manager.retry_task(&task.id, saved_ok);
    assert!(matches!(
        waiting,
        Err(AppError::InvalidTaskStatus { ref action, status: TaskStatus::Waiting, .. }) if action == "retry"
    ));
    let mut state = manager.get_state();
    state.tasks[0].status = TaskStatus::Failed;
    state.tasks[0].error_message = Some("x".to_string());
    state.tasks[0].speed = "1 MB/s".to_string();
    let mut manager = QueueManager::new("q".to_string(), Some(state));
    let retried = manager.retry_task(&task.id, saved_ok).expect("retry");
    assert_eq!(retried.status, TaskStatus::Waiting);
    assert!(retried.error_message.is_none());
    assert!(retried.speed.is_empty());
}

#[test]
fn completion_snapshot_and_finalize() {
    let mut manager = manager();
    let (task, _) = manager.add_task(payload("a", None), saved_ok).unwrap();
    manager.set_running(true, saved_ok).unwrap();
    manager.schedule_next(saved_ok).unwrap();
    let snap = manager.snapshot_task_completion(&task.id, "D:/a.mp4").expect("snapshot");
    assert_eq!(snap.status, TaskStatus::Completed);
    assert_eq!(snap.progress_bits, PROGRESS_DONE);
    assert_eq!(f32::from_bits(snap.progress_bits), 1.0);
    assert_eq!(snap.output_path.as_deref(), Some("D:/a.mp4"));
    assert_eq!(manager.get_state().tasks.len(), 1);
    assert!(manager.snapshot_task_completion("missing", "x").is_none());
    assert!(manager.finalize_task_completion(&task.id, saved_ok).unwrap());
    assert!(!manager.finalize_task_completion(&task.id, saved_ok).unwrap());
    let state = manager.get_state();
    assert!(state.tasks.is_empty());
    assert!(state.current_task_id.is_none());
    assert!(manager.finish_run_if_idle(saved_ok).unwrap());
    assert!(!manager.get_state().is_running);
    assert!(!manager.finish_run_if_idle(saved_ok).unwrap());
}

#[test]
fn progress_update_ignores_empty_values() {
    let mut manager = manager();
    let (task, _) = manager.add_task(payload("a", None), saved_ok).unwrap();
    manager.update_task_progress(&task.id, None, Some("2 MB/s".to_string()), Some("8".to_string()));
    manager.update_task_progress(&task.id, None, Some(String::new()), Some(String::new()));
    let state = manager.get_state();
    assert_eq!(state.tasks[0].speed, "2 MB/s");
    assert_eq!(state.tasks[0].threads, "8");
}

#[test]
fn schedule_next_waits_for_running_queue_and_free_slot() {
    let mut manager = manager();
    manager.add_task(payload("a", None), saved_ok).unwrap();
    manager.add_task(payload("b", None), saved_ok).unwrap();
    assert!(manager.schedule_next(saved_ok).unwrap().is_none());
    manager.set_running(true, saved_ok).unwrap();
    let first = manager.schedule_next(saved_ok).unwrap().expect("first");
    assert_eq!(first.url, "a");
    assert_eq!(first.status, TaskStatus::Downloading);
    assert!(manager.schedule_next(saved_ok).unwrap().is_none());
    assert!(manager.has_live_work());
}

#[test]
fn history_retry_requeues_the_task() {
    let mut manager = manager();
    let mut old = Task::new("https://example.com/old.m3u8".to_string(), Some("old".to_string()), None);
    old.status = TaskStatus::Failed;
    let (task, schedule) = manager.add_history_retry_task(&old, saved_ok).unwrap();
    assert!(!schedule);
    assert_ne!(task.id, old.id);
    assert_eq!(task.url, old.url);
    assert_eq!(task.save_name, old.save_name);
    assert_eq!(task.status, TaskStatus::Waiting);
}
