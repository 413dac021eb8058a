use m3u8_queue::models::{AddTaskPayload, QueueState, TaskStatus as SavedStatus};
use m3u8_queue::queue::{QueueAggregate, QueuePendingHistory, QueueRunStatus, QueueTasks, RemoveTaskResult, RetryTaskResult, StopTaskResult};
use m3u8_queue::queue_manager::QueueManager;
use m3u8_queue::shutdown::ShutdownManager;
use m3u8_queue::task::{Task, TaskStatus as DomainStatus, Timestamp};

fn task(id: &str, status: DomainStatus) -> Task {
    let mut t = Task::new_queued(id.to_string(), format!("https://example.com/{id}.m3u8"), None, None, Timestamp { secs: 0, nanos: 0 });
    t.status = status;
    t
}

fn sorted_ids(tasks: &[Task]) -> Vec<String> {
    let mut ids: Vec<String> = tasks.iter().map(|t| t.id.clone()).collect();
    ids.sort();
    ids
}

fn ok(_: &QueueState) -> Result<(), String> {
    Ok(())
}

#[test]
fn reorder_keeps_every_task_once() {
    let mut state = QueueAggregate {
        tasks: QueueTasks::from_tasks(vec![
            task("a", DomainStatus::Waiting),
            task("b", DomainStatus::Failed),
            task("c", DomainStatus::Waiting),
            task("d", DomainStatus::Waiting),
        ]),
        ..QueueAggregate::default()
    };
    let before = sorted_ids(state.tasks());
    state.reorder_waiting_tasks(vec!["d".to_string(), "x".to_string(), "d".to_string(), "a".to_string()]);
    let ids: Vec<&str> = state.tasks().iter().map(|t| t.id.as_str()).collect();
    assert_eq!(ids, vec!["b", "d", "a", "c"]);
    assert_eq!(sorted_ids(state.tasks()), before);
}

#[test]
fn removing_an_added_task_restores_the_queue() {
    let mut state = QueueAggregate {
        tasks: QueueTasks::from_tasks(vec![task("a", DomainStatus::Waiting)]),
        ..QueueAggregate::default()
    };
    state.add_task(task("new", DomainStatus::Waiting));
    assert!(matches!(state.remove_task("new"), RemoveTaskResult::Removed));
    let ids: Vec<&str> = state.tasks().iter().map(|t| t.id.as_str()).collect();
    assert_eq!(ids, vec!["a"]);
}

#[test]
fn retry_after_stop_restores_waiting_task() {
    let mut t = task("a", DomainStatus::Downloading);
    t.retry_count = 1;
    let mut state = QueueAggregate {
        tasks: QueueTasks::from_tasks(vec![t]),
        run_status: QueueRunStatus::Running,
        ..QueueAggregate::default()
    };
    assert!(matches!(state.stop_task("a"), StopTaskResult::Stopped(_)));
    let RetryTaskResult::Retried(r) = state.retry_task("a") else {
        panic!("stopped task retries");
    };
    assert_eq!(r.status, DomainStatus::Waiting);
    assert!(r.error_message.is_none());
    assert_eq!(r.retry_count, 1);
}

#[test]
fn pending_history_never_holds_an_id_twice() {
    let mut state = QueueAggregate::default();
    state.push_pending_history_task(task("a", DomainStatus::Completed));
    state.push_pending_history_task(task("a", DomainStatus::Failed));
    state.push_pending_history_task(task("b", DomainStatus::Failed));
    let ids: Vec<&str> = state.pending_history_tasks().iter().map(|t| t.id.as_str()).collect();
    assert_eq!(ids, vec!["a", "b"]);
}

#[test]
fn exit_twice_is_exit_once() {
    let mut state = QueueAggregate {
        tasks: QueueTasks::from_tasks(vec![task("a", DomainStatus::Downloading), task("b", DomainStatus::Completed)]),
        run_status: QueueRunStatus::Running,
        ..QueueAggregate::default()
    };
    state.prepare_for_exit();
    let once: Vec<DomainStatus> = state.tasks().iter().map(|t| t.status).collect();
    state.prepare_for_exit();
    let twice: Vec<DomainStatus> = state.tasks().iter().map(|t| t.status).collect();
    assert_eq!(once, twice);
    assert!(state.tasks().iter().all(|t| t.status != DomainStatus::Downloading));
}

#[test]
fn restart_keeps_only_finished_pending_tasks() {
    let mut state = QueueAggregate {
        pending_history: QueuePendingHistory::from_tasks(vec![task("w", DomainStatus::Waiting), task("c", DomainStatus::Completed)]),
        ..QueueAggregate::default()
    };
    state.normalize_after_restart();
    let ids: Vec<&str> = state.pending_history_tasks().iter().map(|t| t.id.as_str()).collect();
    assert_eq!(ids, vec!["c"]);
}

#[test]
fn saved_queue_reorder_and_exit() {
    let mut manager = QueueManager::new("q".to_string(), None);
    let mut ids = Vec::new();
    for url in ["1", "2", "3"] {
        let (t, _) = manager.add_task(AddTaskPayload { url: url.to_string(), save_name: None, headers: None }, ok).unwrap();
        ids.push(t.id);
    }
    manager.reorder_tasks(vec![ids[2].clone(), ids[0].clone()], ok).unwrap();
    let order: Vec<String> = manager.get_state().tasks.iter().map(|t| t.id.clone()).collect();
    assert_eq!(order, vec![ids[2].clone(), ids[0].clone(), ids[1].clone()]);
    manager.set_running(true, ok).unwrap();
    manager.schedule_next(ok).unwrap();
    manager.prepare_for_exit(ok).unwrap();
    assert!(manager.get_state().tasks.iter().all(|t| t.status != SavedStatus::Downloading));
    manager.remove_task(&ids[1], ok).unwrap();
    let order: Vec<String> = manager.get_state().tasks.iter().map(|t| t.id.clone()).collect();
    assert_eq!(order, vec![ids[2].clone(), ids[0].clone()]);
}

#[test]
fn shutdown_countdown_starts_once_per_run() {
    let mut shutdown = ShutdownManager::new();
    assert!(shutdown.should_start_countdown());
    shutdown.start_countdown(|_| Ok(())).unwrap();
    assert!(!shutdown.should_start_countdown());
    shutdown.mark_run_failure();
    shutdown.clear_cancellation_after_reenable();
    assert!(!shutdown.should_start_countdown());
    shutdown.reset_for_new_run(|| Ok(())).unwrap();
    assert!(shutdown.should_start_countdown());
}
