use m3u8_queue::app_error::AppError;
use m3u8_queue::history_store::{
    append_history_task, find_history_task, is_current_format, next_chunk_file_name, next_chunk_number, parse_chunk_number, read_history_page, remove_history_task, HistoryIndex, HistoryStore,
};
use m3u8_queue::models::{HistoryPage, HistoryStatus, Task, TaskStatus};

/// The history of one status kept in memory: chunk files by name, and the index.
struct MemoryHistory {
    files: Vec<(String, Vec<Task>)>,
    index: HistoryIndex,
}

impl MemoryHistory {
    fn new() -> Self {
        MemoryHistory { files: Vec::new(), index: HistoryIndex { total: 0, chunks: Vec::new() } }
    }

    fn file(&mut self, name: &str) -> &mut Vec<Task> {
        if let Some(p) = self.files.iter().position(|(n, _)| n == name) {
            return &mut self.files[p].1;
        }
        self.files.push((name.to_string(), Vec::new()));
        &mut self.files.last_mut().unwrap().1
    }

    fn append(&mut self, task: &Task) -> Result<(), String> {
        HistoryStatus::from_task_status(&task.status)?;
        let files = std::cell::RefCell::new(std::mem::take(&mut self.files));
        let result = append_history_task(
            &mut self.index,
            task,
            |name: &String| {
                Ok(files.borrow().iter().find(|(n, _)| n == name).map(|(_, t)| t.clone()).unwrap_or_default())
            },
            |name: &String, tasks: &Vec<Task>| {
                let mut files = files.borrow_mut();
                match files.iter_mut().find(|(n, _)| n == name) {
                    Some((_, t)) => *t = tasks.clone(),
                    None => files.push((name.clone(), tasks.clone())),
                }
                Ok(())
            },
        );
        self.files = files.into_inner();
        result.map_err(|_| "append failed".to_string())
    }

    fn chunk(&self, name: &String) -> Result<Vec<Task>, AppError> {
        Ok(self.files.iter().find(|(n, _)| n == name).map(|(_, t)| t.clone()).unwrap_or_default())
    }

    fn get_page(&mut self, offset: usize, limit: usize) -> HistoryPage {
        read_history_page(&self.index, offset, limit, |name: &String| self.chunk(name)).expect("page")
    }

    fn find_task(&mut self, id: &str) -> Option<Task> {
        find_history_task(&self.index, id, |name: &String| self.chunk(name)).expect("search")
    }

    fn remove_task(&mut self, id: &str) -> bool {
        let files = std::cell::RefCell::new(std::mem::take(&mut self.files));
        let result = remove_history_task(
            &mut self.index,
            id,
            |name: &String| {
                Ok(files.borrow().iter().find(|(n, _)| n == name).map(|(_, t)| t.clone()).unwrap_or_default())
            },
            |name: &String, tasks: &Vec<Task>| {
                let mut files = files.borrow_mut();
                if let Some((_, t)) = files.iter_mut().find(|(n, _)| n == name) {
                    *t = tasks.clone();
                }
                Ok(())
            },
            |name: &String| {
                files.borrow_mut().retain(|(n, _)| n != name);
                Ok(())
            },
        );
        self.files = files.into_inner();
        result.expect("removal")
    }
}

fn build_task(index: usize, status: TaskStatus) -> Task {
    let mut task = Task::new(
        format!("https://example.com/{index}.m3u8"),
        Some(format!("save-{index}")),
        None,
    );
    task.id = format!("task-{index}");
    task.status = status;
    task.progress_bits = 1.0f32.to_bits();
    task.output_path = Some(format!("D:/Videos/{index}.mp4"));
    task
}

#[test]
fn get_page_returns_newest_tasks_first() {
    let mut history = MemoryHistory::new();
    for index in 0..25 {
        history.append(&build_task(index, TaskStatus::Completed)).expect("append history task");
    }

    let page = history.get_page(0, 20);

    assert_eq!(page.tasks.len(), 20);
    assert_eq!(page.tasks.first().map(|task| task.id.as_str()), Some("task-24"));
    assert_eq!(page.tasks.last().map(|task| task.id.as_str()), Some("task-5"));
    assert!(page.has_more);
    assert_eq!(page.next_offset, 20);

    let rest = history.get_page(page.next_offset, 20);
    assert_eq!(rest.tasks.len(), 5);
    assert_eq!(rest.tasks[0].id, "task-4");
    assert!(!rest.has_more);
    assert_eq!(rest.next_offset, 25);
}

#[test]
fn find_task_reads_from_history_chunks() {
    let mut history = MemoryHistory::new();
    for index in 0..12 {
        history.append(&build_task(index, TaskStatus::Failed)).expect("append history task");
    }
    let found = history.find_task("task-3");
    assert_eq!(found.map(|task| task.id), Some("task-3".to_string()));
    assert!(history.find_task("task-99").is_none());
}

#[test]
fn append_creates_new_chunk_after_recovering_chunk_only_write() {
    let mut history = MemoryHistory::new();
    for index in 0..9 {
        history.append(&build_task(index, TaskStatus::Completed)).expect("append history task");
    }
    history.file("000001.json").push(build_task(9, TaskStatus::Completed));
    history.append(&build_task(10, TaskStatus::Completed)).expect("append after interrupted write");
    assert!(history.files.iter().any(|(n, _)| n == "000002.json"));
    assert_eq!(history.index.total, 11);
}

#[test]
fn remove_task_deletes_record_and_updates_index() {
    let mut history = MemoryHistory::new();
    for index in 0..3 {
        history.append(&build_task(index, TaskStatus::Failed)).expect("append history task");
    }
    assert!(history.remove_task("task-1"));
    assert!(history.find_task("task-1").is_none());
    let page = history.get_page(0, 20);
    assert_eq!(page.tasks.len(), 2);
    assert_eq!(page.next_offset, 2);
    assert!(!history.remove_task("task-1"));
}

#[test]
fn emptied_chunk_leaves_the_index() {
    let mut history = MemoryHistory::new();
    history.append(&build_task(0, TaskStatus::Completed)).unwrap();
    assert!(history.remove_task("task-0"));
    assert!(history.index.chunks.is_empty());
    assert_eq!(history.index.total, 0);
}

#[test]
fn unfinished_task_is_refused() {
    let mut history = MemoryHistory::new();
    let err = history.append(&build_task(0, TaskStatus::Waiting)).unwrap_err();
    assert_eq!(err, "Only completed and failed tasks can be stored in history");
    assert_eq!(history.index.total, 0);
}

#[test]
fn empty_page_requests_read_nothing() {
    let mut history = MemoryHistory::new();
    history.append(&build_task(0, TaskStatus::Completed)).unwrap();
    let page = history.get_page(0, 0);
    assert!(page.tasks.is_empty());
    assert!(!page.has_more);
    assert_eq!(page.next_offset, 0);
    let page = history.get_page(5, 10);
    assert!(page.tasks.is_empty());
    assert_eq!(page.next_offset, 5);
}

#[test]
fn chunk_names_round_trip() {
    assert_eq!(next_chunk_file_name(1), "000001.json");
    assert_eq!(next_chunk_file_name(1234567), "1234567.json");
    assert_eq!(parse_chunk_number("000042.json"), Some(42));
    assert_eq!(parse_chunk_number("42.txt"), None);
    assert_eq!(parse_chunk_number("abc.json"), None);
    assert_eq!(parse_chunk_number(&next_chunk_file_name(77)), Some(77));
    let index = HistoryIndex { total: 0, chunks: Vec::new() };
    assert_eq!(next_chunk_number(&index), 1);
}

#[test]
fn history_format_marker() {
    assert!(is_current_format("2"));
    assert!(is_current_format("2\n"));
    assert!(!is_current_format("1"));
    let store = HistoryStore::new("history".to_string());
    assert_eq!(store.base_path(), "history");
}

#[test]
fn search_prefers_the_newest_chunk_holding_the_id() {
    let mut history = MemoryHistory::new();
    for index in 0..12 {
        history.append(&build_task(index, TaskStatus::Completed)).expect("append history task");
    }
    let mut again = build_task(3, TaskStatus::Completed);
    again.save_name = Some("again".to_string());
    history.append(&again).expect("append duplicate id");
    let found = history.find_task("task-3").expect("found");
    assert_eq!(found.save_name.as_deref(), Some("again"));
    assert!(history.find_task("task-99").is_none());
}

#[test]
fn failing_chunk_load_ends_page_and_search_with_its_error() {
    let mut history = MemoryHistory::new();
    for index in 0..3 {
        history.append(&build_task(index, TaskStatus::Failed)).expect("append history task");
    }
    let fail = |_: &String| -> Result<Vec<Task>, AppError> { Err(AppError::Message("disk gone".to_string())) };
    match read_history_page(&history.index, 0, 2, fail) {
        Err(AppError::Message(m)) => assert_eq!(m, "disk gone"),
        _ => panic!("expected the load error"),
    }
    match find_history_task(&history.index, "task-1", fail) {
        Err(AppError::Message(m)) => assert_eq!(m, "disk gone"),
        _ => panic!("expected the load error"),
    }
    let page = read_history_page(&history.index, 0, 0, fail).expect("no chunk read");
    assert!(page.tasks.is_empty());
    assert!(!page.has_more);
    assert_eq!(page.next_offset, 0);
}

#[test]
fn appended_task_heads_the_first_page() {
    let mut history = MemoryHistory::new();
    for index in 0..10 {
        history.append(&build_task(index, TaskStatus::Completed)).expect("append history task");
    }
    history.append(&build_task(10, TaskStatus::Completed)).expect("append into a new chunk");
    let page = history.get_page(0, 1);
    assert_eq!(page.tasks[0].id, "task-10");
    assert_eq!(history.get_page(0, 11).tasks.len(), 11);
    assert_eq!(history.get_page(1, 1).tasks[0].id, "task-9");
    assert_eq!(history.find_task("task-10").expect("found").id, "task-10");
}

#[test]
fn removal_deletes_an_emptied_chunk_and_keeps_the_others() {
    let mut history = MemoryHistory::new();
    for index in 0..11 {
        history.append(&build_task(index, TaskStatus::Completed)).expect("append history task");
    }
    assert!(history.remove_task("task-10"));
    assert_eq!(history.index.chunks.len(), 1);
    assert_eq!(history.index.total, 10);
    assert!(!history.remove_task("task-10"));
    assert!(history.remove_task("task-0"));
    assert_eq!(history.index.total, 9);
    assert_eq!(history.get_page(0, 1).tasks[0].id, "task-9");
}

#[test]
fn only_a_store_marked_with_the_current_format_is_kept() {
    assert!(m3u8_queue::history_store::keeps_stored_history(Some("2\n")));
    assert!(!m3u8_queue::history_store::keeps_stored_history(Some("1")));
    assert!(!m3u8_queue::history_store::keeps_stored_history(None));
}

#[test]
fn new_task_has_a_hyphenated_id_and_a_time_after_the_epoch() {
    let t = Task::new("https://example.com/a.m3u8".to_string(), None, None);
    let id: Vec<char> = t.id.chars().collect();
    assert_eq!(id.len(), 36);
    for p in [8, 13, 18, 23] {
        assert_eq!(id[p], '-');
    }
    assert!(t.created_at.secs >= 0);
    assert_eq!(t.status, TaskStatus::Waiting);
}

#[test]
fn unfinished_task_is_refused_by_the_history() {
    let mut history = MemoryHistory::new();
    history.append(&build_task(0, TaskStatus::Completed)).expect("append history task");
    let mut index = history.index.clone();
    let r = append_history_task(
        &mut index,
        &build_task(1, TaskStatus::Downloading),
        |_: &String| -> Result<Vec<Task>, AppError> { panic!("no chunk is read") },
        |_: &String, _: &Vec<Task>| -> Result<(), AppError> { panic!("no chunk is written") },
    );
    match r {
        Err(AppError::Message(m)) => assert_eq!(m, "Only completed and failed tasks can be stored in history"),
        _ => panic!("expected the refusal"),
    }
    assert_eq!(index.total, 1);
}
