use m3u8_queue::models::{QueueState, Task, TaskStatus, PROGRESS_NONE};
use m3u8_queue::persistence::{Persistence, QUEUE_STATE_VERSION};

fn task(status: TaskStatus) -> Task {
    let mut t = Task::new("https://example.com/a.m3u8".to_string(), None, None);
    t.status = status;
    t.progress_bits = 0.5f32.to_bits();
    t.speed = "1 MB/s".to_string();
    t.threads = "8".to_string();
    t
}

#[test]
fn restore_resets_downloads_left_running() {
    let state = QueueState {
        tasks: vec![task(TaskStatus::Downloading), task(TaskStatus::Failed)],
        current_task_id: Some("x".to_string()),
        is_running: true,
    };
    let restored = Persistence::restore(QUEUE_STATE_VERSION, state).expect("current version");
    assert!(restored.current_task_id.is_none());
    assert!(!restored.is_running);
    assert_eq!(restored.tasks[0].status, TaskStatus::Waiting);
    assert_eq!(restored.tasks[0].progress_bits, PROGRESS_NONE);
    assert!(restored.tasks[0].speed.is_empty());
    assert!(restored.tasks[0].threads.is_empty());
    assert_eq!(restored.tasks[1].status, TaskStatus::Failed);
    assert_eq!(restored.tasks[1].speed, "1 MB/s");
}

#[test]
fn restore_refuses_other_versions() {
    assert!(Persistence::restore(0, QueueState::empty()).is_none());
    assert!(Persistence::restore(2, QueueState::empty()).is_none());
    assert_eq!(Persistence::version(), 1);
}
