//! The records the application keeps and shows: tasks as saved, the queue
//! state, settings, and pages of history and output.
use vstd::prelude::*;
use crate::task::{clone_opt_string, Timestamp};
use crate::text::str_eq;

verus! {

broadcast use vstd::string::group_string_axioms;

/// Where a saved task stands.
#[derive(Debug, Clone, Copy, PartialEq, Eq, Structural)]
pub enum TaskStatus {
    Waiting,
    Downloading,
    Completed,
    Failed,
}

/// Whether a finished task completed or failed.
#[derive(Debug, Clone, Copy, PartialEq, Eq, Structural)]
pub enum HistoryStatus {
    Completed,
    Failed,
}

/// The history status a task status maps to: only completed and failed tasks
/// have one.
pub open spec fn history_status_of(status: TaskStatus) -> Option<HistoryStatus> {
    match status {
        TaskStatus::Completed => Some(HistoryStatus::Completed),
        TaskStatus::Failed => Some(HistoryStatus::Failed),
        _ => None,
    }
}

/// The message a task that has not finished is refused history with.
pub open spec fn not_finished_message() -> Seq<char> {
    "Only completed and failed tasks can be stored in history"@
}

/// The name of a history status, also the name of its directory.
pub open spec fn history_status_name(status: HistoryStatus) -> Seq<char> {
    match status {
        HistoryStatus::Completed => "completed"@,
        HistoryStatus::Failed => "failed"@,
    }
}

impl HistoryStatus {
    pub fn as_str(&self) -> (r: &'static str)
        ensures
            r@ == history_status_name(*self),
    {
        proof {
            reveal_strlit("completed");
            reveal_strlit("failed");
        }
        match self {
            HistoryStatus::Completed => "completed",
            HistoryStatus::Failed => "failed",
        }
    }

    /// The history status of a task in `status`; an error for a task that has
    /// not finished.
    pub fn from_task_status(status: &TaskStatus) -> (r: Result<HistoryStatus, String>)
        ensures
            match history_status_of(*status) {
                Some(h) => r == Ok::<HistoryStatus, String>(h),
                None => r matches Err(m) && m@ == not_finished_message(),
            },
    {
        match status {
            TaskStatus::Completed => Ok(HistoryStatus::Completed),
            TaskStatus::Failed => Ok(HistoryStatus::Failed),
            _ => Err("Only completed and failed tasks can be stored in history".to_string()),
        }
    }
}

/// What the close button of the main window does.
#[derive(Debug, Clone, Copy, PartialEq, Eq, Structural)]
pub enum CloseButtonBehavior {
    CloseToTray,
    Exit,
}

impl Default for CloseButtonBehavior {
    fn default() -> (r: CloseButtonBehavior)
        ensures
            r == CloseButtonBehavior::CloseToTray,
    {
        CloseButtonBehavior::CloseToTray
    }
}

/// The user's settings.
#[derive(Debug, Clone, PartialEq, Eq)]
pub struct AppSettings {
    pub close_button_behavior: CloseButtonBehavior,
    pub auto_action_on_complete: bool,
    pub download_dir: Option<String>,
}

impl AppSettings {
    /// Settings before the user changes any: close to tray, no action when the
    /// queue completes, the default download directory.
    pub fn default_settings() -> (r: AppSettings)
        ensures
            r.close_button_behavior == CloseButtonBehavior::CloseToTray,
            !r.auto_action_on_complete,
            r.download_dir is None,
    {
        AppSettings {
            close_button_behavior: CloseButtonBehavior::CloseToTray,
            auto_action_on_complete: false,
            download_dir: None,
        }
    }

    /// A copy of these settings.
    pub fn duplicate(&self) -> (r: AppSettings)
        ensures
            r == *self,
    {
        AppSettings {
            close_button_behavior: self.close_button_behavior,
            auto_action_on_complete: self.auto_action_on_complete,
            download_dir: clone_opt_string(&self.download_dir),
        }
    }
}

impl Default for AppSettings {
    fn default() -> (r: AppSettings)
        ensures
            r.close_button_behavior == CloseButtonBehavior::CloseToTray,
            !r.auto_action_on_complete,
            r.download_dir is None,
    {
        AppSettings::default_settings()
    }
}

/// The IEEE-754 bit pattern of a progress ratio of 0.
pub const PROGRESS_NONE: u32 = 0;

/// The IEEE-754 bit pattern of a progress ratio of 1.
pub const PROGRESS_DONE: u32 = 0x3f80_0000;

/// A task as the application saves it and shows it, with its live progress.
/// `progress_bits` holds the bit pattern of the progress ratio (an `f32`
/// between 0 and 1), which this library stores and resets but never computes.
#[derive(Debug, Clone)]
pub struct Task {
    pub id: String,
    pub url: String,
    pub save_name: Option<String>,
    pub headers: Option<String>,
    pub status: TaskStatus,
    pub retry_count: u8,
    pub progress_bits: u32,
    pub speed: String,
    pub threads: String,
    pub output_path: Option<String>,
    pub error_message: Option<String>,
    pub created_at: Timestamp,
}

/// `uuid::Uuid::new_v4().to_string()`: a fresh random id. The contract claims
/// only the hyphenated form the crate's `Display` writes: 36 characters with
/// hyphens at positions 8, 13, 18 and 23; which id comes out is left open.
#[verifier::external_body]
fn new_task_id() -> (r: String)
    ensures
        r@.len() == 36,
        r@[8] == '-' && r@[13] == '-' && r@[18] == '-' && r@[23] == '-',
{
    uuid::Uuid::new_v4().to_string()
}

/// `chrono::Utc::now()`: the current time, as seconds and nanoseconds since the
/// Unix epoch. The contract claims only what the crate's source shows of every
/// outcome: the time is not before the epoch (the crate panics otherwise) and
/// the nanoseconds are below one second; which time comes out is left open.
#[verifier::external_body]
fn now() -> (r: Timestamp)
    ensures
        r.secs >= 0,
        r.nanos < 1_000_000_000,
{
    let now = chrono::Utc::now();
    Timestamp { secs: now.timestamp(), nanos: now.timestamp_subsec_nanos() }
}

/// Whether `t` is a task just made for `url`: a fresh id, waiting, with no
/// progress, output or error.
pub open spec fn is_new_task(t: Task, url: String, save_name: Option<String>, headers: Option<String>) -> bool {
    &&& t.id@.len() == 36
    &&& t.url == url
    &&& t.save_name == save_name
    &&& t.headers == headers
    &&& t.status == TaskStatus::Waiting
    &&& t.retry_count == 0
    &&& t.progress_bits == PROGRESS_NONE
    &&& t.speed@ == Seq::<char>::empty()
    &&& t.threads@ == Seq::<char>::empty()
    &&& t.output_path is None
    &&& t.error_message is None
    &&& t.created_at.nanos < 1_000_000_000
}

impl Task {
    /// A new waiting task for `url` with a fresh id and the current time.
    pub fn new(url: String, save_name: Option<String>, headers: Option<String>) -> (r: Task)
        ensures
            r.id@.len() == 36,
            r.url == url,
            r.save_name == save_name,
            r.headers == headers,
            r.status == TaskStatus::Waiting,
            r.retry_count == 0,
            r.progress_bits == PROGRESS_NONE,
            r.speed@ == Seq::<char>::empty(),
            r.threads@ == Seq::<char>::empty(),
            r.output_path is None,
            r.error_message is None,
            r.id@[8] == '-' && r.id@[13] == '-' && r.id@[18] == '-' && r.id@[23] == '-',
            r.created_at.secs >= 0,
            r.created_at.nanos < 1_000_000_000,
            is_new_task(r, url, save_name, headers),
    {
        Task {
            id: new_task_id(),
            url,
            save_name,
            headers,
            status: TaskStatus::Waiting,
            retry_count: 0,
            progress_bits: PROGRESS_NONE,
            speed: String::new(),
            threads: String::new(),
            output_path: None,
            error_message: None,
            created_at: now(),
        }
    }

    /// The same task, field by field, as a new value.
    pub fn duplicate(&self) -> (r: Task)
        ensures
            r == *self,
    {
        Task {
            id: self.id.clone(),
            url: self.url.clone(),
            save_name: clone_opt_string(&self.save_name),
            headers: clone_opt_string(&self.headers),
            status: self.status,
            retry_count: self.retry_count,
            progress_bits: self.progress_bits,
            speed: self.speed.clone(),
            threads: self.threads.clone(),
            output_path: clone_opt_string(&self.output_path),
            error_message: clone_opt_string(&self.error_message),
            created_at: self.created_at,
        }
    }
}

/// The queue as saved and shown: its tasks in order, the task being
/// downloaded, and whether the queue runs.
#[derive(Debug, Clone)]
pub struct QueueState {
    pub tasks: Vec<Task>,
    pub current_task_id: Option<String>,
    pub is_running: bool,
}

/// A field-for-field copy of each task, in order.
pub fn duplicate_tasks(tasks: &Vec<Task>) -> (r: Vec<Task>)
    ensures
        r@ == tasks@,
{
    let mut out: Vec<Task> = Vec::new();
    let mut i: usize = 0;
    while i < tasks.len()
        invariant
            i <= tasks.len(),
            out@ == tasks@.take(i as int),
        decreases tasks.len() - i,
    {
        out.push(tasks[i].duplicate());
        proof {
            assert(tasks@.take(i as int).push(tasks@[i as int]) =~= tasks@.take(i + 1));
        }
        i = i + 1;
    }
    proof {
        assert(tasks@.take(tasks@.len() as int) =~= tasks@);
    }
    out
}

impl QueueState {
    /// A copy of this state.
    pub fn duplicate(&self) -> (r: QueueState)
        ensures
            r.tasks@ == self.tasks@,
            r.current_task_id == self.current_task_id,
            r.is_running == self.is_running,
    {
        QueueState {
            tasks: duplicate_tasks(&self.tasks),
            current_task_id: clone_opt_string(&self.current_task_id),
            is_running: self.is_running,
        }
    }

    pub fn empty() -> (r: QueueState)
        ensures
            r.tasks@ == Seq::<Task>::empty(),
            r.current_task_id is None,
            !r.is_running,
    {
        QueueState { tasks: Vec::new(), current_task_id: None, is_running: false }
    }
}

impl Default for QueueState {
    fn default() -> (r: QueueState)
        ensures
            r.tasks@ == Seq::<Task>::empty(),
            r.current_task_id is None,
            !r.is_running,
    {
        QueueState::empty()
    }
}

/// What the user gives to queue a download.
#[derive(Debug, Clone)]
pub struct AddTaskPayload {
    pub url: String,
    pub save_name: Option<String>,
    pub headers: Option<String>,
}

/// A page of finished tasks, newest first.
#[derive(Debug, Clone)]
pub struct HistoryPage {
    pub tasks: Vec<Task>,
    pub has_more: bool,
    pub next_offset: usize,
}

/// A page of saved output lines and where it sits among them.
#[derive(Debug, Clone)]
pub struct CliOutputPage {
    pub lines: Vec<String>,
    pub offset: usize,
    pub total: usize,
    pub next_offset: usize,
    pub has_more_before: bool,
    pub has_more_after: bool,
}

/// What a terminal view shows of a download: the last committed lines and the
/// line being written.
#[derive(Debug, Clone)]
pub struct CliTerminalState {
    pub committed_lines: Vec<String>,
    pub active_line: String,
    pub offset: usize,
    pub total: usize,
    pub has_more_before: bool,
}

/// The position of the first task with id `id`.
pub open spec fn first_task_with_id(tasks: Seq<Task>, id: Seq<char>, i: int) -> bool {
    &&& 0 <= i < tasks.len()
    &&& tasks[i].id@ == id
    &&& forall|j: int| 0 <= j < i ==> tasks[j].id@ != id
}

/// The position of the first task with id `id`, if any has it.
pub open spec fn task_position(tasks: Seq<Task>, id: Seq<char>) -> Option<int> {
    if exists|i: int| first_task_with_id(tasks, id, i) {
        Some(choose|i: int| first_task_with_id(tasks, id, i))
    } else {
        None
    }
}

/// `task_position` is the one position at which the first task with the id stands.
pub proof fn lemma_task_position(tasks: Seq<Task>, id: Seq<char>)
    ensures
        match task_position(tasks, id) {
            Some(i) => first_task_with_id(tasks, id, i),
            None => forall|j: int| 0 <= j < tasks.len() ==> tasks[j].id@ != id,
        },
        forall|i: int| first_task_with_id(tasks, id, i) ==> task_position(tasks, id) == Some(i),
{
    assert forall|i: int| first_task_with_id(tasks, id, i) implies task_position(tasks, id) == Some(i) by {
        let k = choose|k: int| first_task_with_id(tasks, id, k);
        if k < i {
            assert(tasks[k].id@ != id);
        }
        if i < k {
            assert(tasks[i].id@ != id);
        }
    }
    if task_position(tasks, id) is None {
        assert forall|j: int| 0 <= j < tasks.len() implies tasks[j].id@ != id by {
            if tasks[j].id@ == id {
                lemma_first_exists(tasks, id, j);
            }
        }
    }
}

proof fn lemma_first_exists(tasks: Seq<Task>, id: Seq<char>, j: int)
    requires
        0 <= j < tasks.len(),
        tasks[j].id@ == id,
    ensures
        exists|i: int| first_task_with_id(tasks, id, i),
    decreases j,
{
    if forall|k: int| 0 <= k < j ==> tasks[k].id@ != id {
        assert(first_task_with_id(tasks, id, j));
    } else {
        let k = choose|k: int| 0 <= k < j && tasks[k].id@ == id;
        lemma_first_exists(tasks, id, k);
    }
}

/// The position of the first task with id `id`.
pub fn find_task_position(tasks: &Vec<Task>, id: &str) -> (r: Option<usize>)
    ensures
        match r {
            Some(i) => first_task_with_id(tasks@, id@, i as int),
            None => forall|j: int| 0 <= j < tasks@.len() ==> tasks@[j].id@ != id@,
        },
        match r {
            Some(i) => task_position(tasks@, id@) == Some(i as int),
            None => task_position(tasks@, id@) is None,
        },
{
    proof {
        lemma_task_position(tasks@, id@);
    }
    let mut i: usize = 0;
    while i < tasks.len()
        invariant
            i <= tasks.len(),
            forall|j: int| 0 <= j < i ==> tasks@[j].id@ != id@,
        decreases tasks.len() - i,
    {
        if str_eq(tasks[i].id.as_str(), id) {
            assert(first_task_with_id(tasks@, id@, i as int));
            return Some(i);
        }
        i = i + 1;
    }
    None
}

/// The test "has an id other than `id`".
pub open spec fn task_id_differs(id: Seq<char>) -> spec_fn(Task) -> bool {
    |t: Task| t.id@ != id
}

} // verus!
