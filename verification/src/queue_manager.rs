//! The download queue as saved to disk: its tasks, the task being downloaded
//! and whether the queue runs, with every change handed to a persist step.
//! A change is made in memory first; when persisting it fails, the change
//! stays and the error is returned.
use vstd::prelude::*;
use crate::app_error::AppError;
use crate::history_store::remove_from_chunk;
use crate::models::{
    find_task_position, is_new_task, task_id_differs, task_position,
    AddTaskPayload, QueueState, Task, TaskStatus, PROGRESS_DONE, PROGRESS_NONE,
};
use crate::task::clone_opt_string;
use crate::text::{opt_view, owned, str_eq};

verus! {

broadcast use vstd::string::group_string_axioms;

/// The most retries a failed download gets before it fails for good.
pub const MAX_RETRIES: u8 = 2;

/// What a failed download leads to.
pub enum TaskFailureTransition {
    /// The task waits in the queue for another try.
    RetryScheduled,
    /// The task has failed for good; this is the task as it ended.
    Terminal(Task),
}

/// Whether the outcome `r` of an operation that ends by persisting `saved`
/// with `persist` reports what persisting returned: `Ok` when it succeeded,
/// its error when it failed.
pub open spec fn persist_outcome<T, F: FnOnce(&QueueState) -> Result<(), String>>(
    persist: F,
    saved: QueueState,
    r: Result<T, AppError>,
) -> bool {
    match r {
        Ok(_) => call_ensures(persist, (&saved,), Ok::<(), String>(())),
        Err(AppError::Message(e)) => call_ensures(persist, (&saved,), Err::<(), String>(e)),
        Err(_) => false,
    }
}

/// Whether `after` is `before` with its progress cleared (progress, speed and
/// threads) and status, retry count and error as given.
pub open spec fn progress_cleared(
    before: Task,
    after: Task,
    status: TaskStatus,
    retry_count: u8,
    error_message: Option<String>,
) -> bool {
    &&& after.id == before.id
    &&& after.url == before.url
    &&& after.save_name == before.save_name
    &&& after.headers == before.headers
    &&& after.status == status
    &&& after.retry_count == retry_count
    &&& after.progress_bits == PROGRESS_NONE
    &&& after.speed@ == Seq::<char>::empty()
    &&& after.threads@ == Seq::<char>::empty()
    &&& after.output_path == before.output_path
    &&& after.error_message == error_message
    &&& after.created_at == before.created_at
}

/// Whether some task in `s` is waiting or downloading.
pub open spec fn has_live(s: Seq<Task>) -> bool {
    exists|i: int|
        0 <= i < s.len() && (#[trigger] s[i].status == TaskStatus::Waiting || s[i].status
            == TaskStatus::Downloading)
}


/// Whether `after` is the snapshot of `before` completed with its output at
/// `output_path`.
pub open spec fn completed_snapshot(before: Task, after: Task, output_path: Seq<char>) -> bool {
    &&& after.id == before.id
    &&& after.url == before.url
    &&& after.save_name == before.save_name
    &&& after.headers == before.headers
    &&& after.status == TaskStatus::Completed
    &&& after.retry_count == before.retry_count
    &&& after.progress_bits == PROGRESS_DONE
    &&& after.speed == before.speed
    &&& after.threads == before.threads
    &&& opt_view(after.output_path) == Some(output_path)
    &&& after.error_message == before.error_message
    &&& after.created_at == before.created_at
}

/// Whether `after` is `before` as it ended after its last failure.
pub open spec fn failed_for_good(before: Task, after: Task, error_message: Seq<char>) -> bool {
    &&& after.id == before.id
    &&& after.url == before.url
    &&& after.save_name == before.save_name
    &&& after.headers == before.headers
    &&& after.status == TaskStatus::Failed
    &&& after.retry_count == before.retry_count
    &&& after.progress_bits == before.progress_bits
    &&& after.speed == before.speed
    &&& after.threads == before.threads
    &&& after.output_path == before.output_path
    &&& opt_view(after.error_message) == Some(error_message)
    &&& after.created_at == before.created_at
}

/// The current task once task `id` has left: none if it was `id`.
pub open spec fn current_without(current: Option<Seq<char>>, id: Seq<char>) -> Option<Seq<char>> {
    if current == Some(id) {
        None
    } else {
        current
    }
}

/// The position of the first waiting task in `s`.
pub open spec fn first_waiting_at(s: Seq<Task>, i: int) -> bool {
    &&& 0 <= i < s.len()
    &&& s[i].status == TaskStatus::Waiting
    &&& forall|j: int| 0 <= j < i ==> s[j].status != TaskStatus::Waiting
}

/// The name of an action as reported with an invalid status.
pub open spec fn action_name_remove() -> Seq<char> {
    "remove"@
}

pub open spec fn action_name_retry() -> Seq<char> {
    "retry"@
}

/// `s` with every downloading task put back to waiting, its progress cleared.
pub open spec fn reset_for_exit(before: Seq<Task>, after: Seq<Task>) -> bool {
    &&& after.len() == before.len()
    &&& forall|i: int|
        0 <= i < before.len() ==> if before[i].status == TaskStatus::Downloading {
            progress_cleared(
                before[i],
                #[trigger] after[i],
                TaskStatus::Waiting,
                before[i].retry_count,
                before[i].error_message,
            )
        } else {
            after[i] == before[i]
        }
}

/// Takes out of `remaining`, for each id of `ids` in turn, the first task with
/// that id; ids with no such task are skipped. Returns the tasks taken, in the
/// order of `ids`, and what is left of `remaining`, in its order.
pub open spec fn take_by_ids(remaining: Seq<Task>, ids: Seq<String>) -> (Seq<Task>, Seq<Task>)
    decreases ids.len(),
{
    if ids.len() == 0 {
        (Seq::empty(), remaining)
    } else {
        match task_position(remaining, ids[0]@) {
            Some(p) => {
                let rest = take_by_ids(remaining.remove(p), ids.drop_first());
                (seq![remaining[p]] + rest.0, rest.1)
            },
            None => take_by_ids(remaining, ids.drop_first()),
        }
    }
}

/// Whether `t` is waiting.
pub open spec fn waits(t: Task) -> bool {
    t.status == TaskStatus::Waiting
}

/// Whether `t` is not waiting.
pub open spec fn does_not_wait(t: Task) -> bool {
    t.status != TaskStatus::Waiting
}

/// The queue after a reorder request: the tasks that are not waiting keep their
/// order and come first; then the waiting tasks named in `ids`, in the order of
/// `ids`; then the other waiting tasks, in their former order.
pub open spec fn reordered_queue(s: Seq<Task>, ids: Seq<String>) -> Seq<Task> {
    let taken = take_by_ids(s.filter(|t: Task| waits(t)), ids);
    s.filter(|t: Task| does_not_wait(t)) + taken.0 + taken.1
}

/// The queue of tasks, the persistence file it is saved to, and whether the
/// application is shutting down.
pub struct QueueManager {
    state: QueueState,
    persistence_path: String,
    shutting_down: bool,
}

impl QueueManager {
    /// The state as it is saved.
    pub closed spec fn saved(&self) -> QueueState {
        self.state
    }

    /// The tasks, in queue order.
    pub closed spec fn tasks(&self) -> Seq<Task> {
        self.state.tasks@
    }

    /// The id of the task being downloaded.
    pub closed spec fn current(&self) -> Option<Seq<char>> {
        opt_view(self.state.current_task_id)
    }

    /// Whether the queue runs.
    pub closed spec fn running(&self) -> bool {
        self.state.is_running
    }

    /// Whether the application is shutting down, so that no task starts and a
    /// failure is no longer handled.
    pub closed spec fn closing(&self) -> bool {
        self.shutting_down
    }

    pub closed spec fn path_spec(&self) -> Seq<char> {
        self.persistence_path@
    }

    /// A manager of the queue saved at `persistence_path`, holding the state
    /// loaded from there, or an empty paused queue when there was none.
    pub fn new(persistence_path: String, loaded: Option<QueueState>) -> (r: QueueManager)
        ensures
            r.path_spec() == persistence_path@,
            !r.closing(),
            match loaded {
                Some(s) => r.saved() == s,
                None => r.tasks() == Seq::<Task>::empty() && r.current() is None && !r.running(),
            },
    {
        let state = match loaded {
            Some(s) => s,
            None => QueueState::empty(),
        };
        QueueManager { state, persistence_path, shutting_down: false }
    }

    /// The path the queue is saved to.
    pub fn persistence_path(&self) -> (r: &str)
        ensures
            r@ == self.path_spec(),
    {
        self.persistence_path.as_str()
    }

    /// A copy of the queue state.
    pub fn get_state(&self) -> (r: QueueState)
        ensures
            r.tasks@ == self.tasks(),
            opt_view(r.current_task_id) == self.current(),
            r.is_running == self.running(),
    {
        self.state.duplicate()
    }

    /// Whether the application is shutting down.
    pub fn is_shutting_down(&self) -> (r: bool)
        ensures
            r == self.closing(),
    {
        self.shutting_down
    }

    /// Whether some task is waiting or downloading.
    pub fn has_live_work(&self) -> (r: bool)
        ensures
            r == has_live(self.tasks()),
    {
        let mut i: usize = 0;
        while i < self.state.tasks.len()
            invariant
                i <= self.state.tasks@.len(),
                forall|j: int|
                    0 <= j < i ==> !(#[trigger] self.state.tasks@[j].status == TaskStatus::Waiting
                        || self.state.tasks@[j].status == TaskStatus::Downloading),
            decreases self.state.tasks@.len() - i,
        {
            let status = self.state.tasks[i].status;
            if status == TaskStatus::Waiting || status == TaskStatus::Downloading {
                return true;
            }
            i = i + 1;
        }
        false
    }

    /// Saves the state with `persist`.
    fn persist<F: FnOnce(&QueueState) -> Result<(), String>>(&self, persist: F) -> (r: Result<
        (),
        AppError,
    >)
        requires
            forall|s: &QueueState| call_requires(persist, (s,)),
        ensures
            persist_outcome(persist, self.saved(), r),
    {
        let outcome = persist(&self.state);
        match outcome {
            Ok(u) => {
                assert(u == ());
                Ok(())
            },
            Err(e) => Err(AppError::Message(e)),
        }
    }

    /// Runs or pauses the queue; running it again clears a shutdown in progress.
    pub fn set_running<F: FnOnce(&QueueState) -> Result<(), String>>(
        &mut self,
        running: bool,
        persist: F,
    ) -> (r: Result<(), AppError>)
        requires
            forall|s: &QueueState| call_requires(persist, (s,)),
        ensures
            final(self).tasks() == old(self).tasks(),
            final(self).current() == old(self).current(),
            final(self).running() == running,
            final(self).closing() == (old(self).closing() && !running),
            final(self).path_spec() == old(self).path_spec(),
            persist_outcome(persist, final(self).saved(), r),
    {
        if running {
            self.shutting_down = false;
        }
        self.state.is_running = running;
        self.persist(persist)
    }

    /// Adds a waiting task made from `payload` at the end of the queue. The
    /// result holds the task and whether the queue should now start it: it
    /// runs and downloads nothing.
    pub fn add_task<F: FnOnce(&QueueState) -> Result<(), String>>(
        &mut self,
        payload: AddTaskPayload,
        persist: F,
    ) -> (r: Result<(Task, bool), AppError>)
        requires
            forall|s: &QueueState| call_requires(persist, (s,)),
        ensures
            final(self).tasks().len() == old(self).tasks().len() + 1,
            final(self).tasks().take(old(self).tasks().len() as int) == old(self).tasks(),
            is_new_task(final(self).tasks().last(), payload.url, payload.save_name, payload.headers),
            final(self).current() == old(self).current(),
            final(self).running() == old(self).running(),
            final(self).closing() == old(self).closing(),
            final(self).path_spec() == old(self).path_spec(),
            persist_outcome(persist, final(self).saved(), r),
            r matches Ok((t, b)) ==> t == final(self).tasks().last() && b == (old(self).running()
                && old(self).current() is None),
    {
        let task = Task::new(payload.url, payload.save_name, payload.headers);
        let copy = task.duplicate();
        self.state.tasks.push(task);
        let should_schedule = self.state.is_running && self.state.current_task_id.is_none();
        proof {
            assert(self.state.tasks@.take(old(self).tasks().len() as int) =~= old(self).tasks());
        }
        match self.persist(persist) {
            Ok(()) => Ok((copy, should_schedule)),
            Err(e) => Err(e),
        }
    }

    /// Queues again the download of a task taken from the history.
    pub fn add_history_retry_task<F: FnOnce(&QueueState) -> Result<(), String>>(
        &mut self,
        task: &Task,
        persist: F,
    ) -> (r: Result<(Task, bool), AppError>)
        requires
            forall|s: &QueueState| call_requires(persist, (s,)),
        ensures
            final(self).tasks().len() == old(self).tasks().len() + 1,
            final(self).tasks().take(old(self).tasks().len() as int) == old(self).tasks(),
            is_new_task(final(self).tasks().last(), task.url, task.save_name, task.headers),
            final(self).current() == old(self).current(),
            final(self).running() == old(self).running(),
            final(self).closing() == old(self).closing(),
            final(self).path_spec() == old(self).path_spec(),
            persist_outcome(persist, final(self).saved(), r),
            r matches Ok((t, b)) ==> t == final(self).tasks().last() && b == (old(self).running()
                && old(self).current() is None),
    {
        let payload = AddTaskPayload {
            url: task.url.clone(),
            save_name: clone_opt_string(&task.save_name),
            headers: clone_opt_string(&task.headers),
        };
        self.add_task(payload, persist)
    }

    /// Removes every task with id `id`, when the first of them is waiting or
    /// has failed.
    pub fn remove_task<F: FnOnce(&QueueState) -> Result<(), String>>(&mut self, id: &str, persist: F) -> (r:
        Result<(), AppError>)
        requires
            forall|s: &QueueState| call_requires(persist, (s,)),
        ensures
            final(self).current() == old(self).current(),
            final(self).running() == old(self).running(),
            final(self).closing() == old(self).closing(),
            final(self).path_spec() == old(self).path_spec(),
            match task_position(old(self).tasks(), id@) {
                None => final(self).tasks() == old(self).tasks() && (r matches Err(
                    AppError::TaskNotFound { id: missing },
                ) && missing@ == id@),
                Some(p) => {
                    let status = old(self).tasks()[p].status;
                    if status == TaskStatus::Waiting || status == TaskStatus::Failed {
                        &&& final(self).tasks() == old(self).tasks().filter(task_id_differs(id@))
                        &&& persist_outcome(persist, final(self).saved(), r)
                    } else {
                        &&& final(self).tasks() == old(self).tasks()
                        &&& (r matches Err(AppError::InvalidTaskStatus { action, id: bad, status: s })
                            && action@ == action_name_remove() && bad@ == id@ && s == status)
                    }
                },
            },
    {
        proof {
            reveal_strlit("remove");
        }
        let position = match find_task_position(&self.state.tasks, id) {
            Some(p) => p,
            None => {
                return Err(AppError::TaskNotFound { id: owned(id) });
            },
        };
        let status = self.state.tasks[position].status;
        if status == TaskStatus::Waiting || status == TaskStatus::Failed {
            let mut tasks: Vec<Task> = Vec::new();
            std::mem::swap(&mut tasks, &mut self.state.tasks);
            let (kept, _) = remove_from_chunk(tasks, id);
            self.state.tasks = kept;
            self.persist(persist)
        } else {
            Err(
                AppError::InvalidTaskStatus {
                    action: "remove".to_string(),
                    id: owned(id),
                    status,
                },
            )
        }
    }

    /// Puts the failed task `id` back to waiting, its progress and error
    /// cleared, and returns it.
    pub fn retry_task<F: FnOnce(&QueueState) -> Result<(), String>>(&mut self, id: &str, persist: F) -> (r:
        Result<Task, AppError>)
        requires
            forall|s: &QueueState| call_requires(persist, (s,)),
        ensures
            final(self).current() == old(self).current(),
            final(self).running() == old(self).running(),
            final(self).closing() == old(self).closing(),
            final(self).path_spec() == old(self).path_spec(),
            match task_position(old(self).tasks(), id@) {
                None => final(self).tasks() == old(self).tasks() && (r matches Err(
                    AppError::TaskNotFound { id: missing },
                ) && missing@ == id@),
                Some(p) => {
                    let before = old(self).tasks()[p];
                    if before.status == TaskStatus::Failed {
                        &&& final(self).tasks().len() == old(self).tasks().len()
                        &&& forall|j: int|
                            0 <= j < old(self).tasks().len() && j != p ==> final(self).tasks()[j]
                                == old(self).tasks()[j]
                        &&& progress_cleared(
                            before,
                            final(self).tasks()[p],
                            TaskStatus::Waiting,
                            before.retry_count,
                            None,
                        )
                        &&& persist_outcome(persist, final(self).saved(), r)
                        &&& r matches Ok(t) ==> t == final(self).tasks()[p]
                    } else {
                        &&& final(self).tasks() == old(self).tasks()
                        &&& (r matches Err(AppError::InvalidTaskStatus { action, id: bad, status: s })
                            && action@ == action_name_retry() && bad@ == id@ && s == before.status)
                    }
                },
            },
    {
        proof {
            reveal_strlit("retry");
        }
        let position = match find_task_position(&self.state.tasks, id) {
            Some(p) => p,
            None => {
                return Err(AppError::TaskNotFound { id: owned(id) });
            },
        };
        let status = self.state.tasks[position].status;
        if status != TaskStatus::Failed {
            return Err(
                AppError::InvalidTaskStatus { action: "retry".to_string(), id: owned(id), status },
            );
        }
        let ghost before = self.state.tasks@;
        self.state.tasks[position].status = TaskStatus::Waiting;
        self.state.tasks[position].progress_bits = PROGRESS_NONE;
        self.state.tasks[position].speed = String::new();
        self.state.tasks[position].threads = String::new();
        self.state.tasks[position].error_message = None;
        let task = self.state.tasks[position].duplicate();
        proof {
            assert forall|j: int| 0 <= j < before.len() && j != position implies self.state.tasks@[j]
                == before[j] by {}
        }
        match self.persist(persist) {
            Ok(()) => Ok(task),
            Err(e) => Err(e),
        }
    }

    /// The task `id` as it would be recorded once completed, its output at
    /// `output_path`; the queue is left as it is.
    pub fn snapshot_task_completion(&self, id: &str, output_path: &str) -> (r: Option<Task>)
        ensures
            match task_position(self.tasks(), id@) {
                None => r is None,
                Some(p) => (r matches Some(t) && completed_snapshot(self.tasks()[p], t, output_path@)),
            },
    {
        let position = match find_task_position(&self.state.tasks, id) {
            Some(p) => p,
            None => {
                return None;
            },
        };
        let mut task = self.state.tasks[position].duplicate();
        task.status = TaskStatus::Completed;
        task.progress_bits = PROGRESS_DONE;
        task.output_path = Some(owned(output_path));
        Some(task)
    }

    /// Takes the first task with id `id` out of the queue, and releases it as
    /// current task.
    fn release_task<F: FnOnce(&QueueState) -> Result<(), String>>(&mut self, id: &str, persist: F) -> (r:
        Result<bool, AppError>)
        requires
            forall|s: &QueueState| call_requires(persist, (s,)),
        ensures
            match task_position(old(self).tasks(), id@) {
                None => final(self).tasks() == old(self).tasks(),
                Some(p) => final(self).tasks() == old(self).tasks().remove(p),
            },
            final(self).current() == current_without(old(self).current(), id@),
            final(self).running() == old(self).running(),
            final(self).closing() == old(self).closing(),
            final(self).path_spec() == old(self).path_spec(),
            persist_outcome(persist, final(self).saved(), r),
            r matches Ok(b) ==> b == (task_position(old(self).tasks(), id@) is Some),
    {
        let removed = match find_task_position(&self.state.tasks, id) {
            Some(p) => {
                self.state.tasks.remove(p);
                true
            },
            None => false,
        };
        let is_current = match &self.state.current_task_id {
            Some(current) => str_eq(current.as_str(), id),
            None => false,
        };
        if is_current {
            self.state.current_task_id = None;
        }
        match self.persist(persist) {
            Ok(()) => Ok(removed),
            Err(e) => Err(e),
        }
    }

    /// Takes a completed task out of the queue; the result tells whether it
    /// was there.
    pub fn finalize_task_completion<F: FnOnce(&QueueState) -> Result<(), String>>(
        &mut self,
        id: &str,
        persist: F,
    ) -> (r: Result<bool, AppError>)
        requires
            forall|s: &QueueState| call_requires(persist, (s,)),
        ensures
            match task_position(old(self).tasks(), id@) {
                None => final(self).tasks() == old(self).tasks(),
                Some(p) => final(self).tasks() == old(self).tasks().remove(p),
            },
            final(self).current() == current_without(old(self).current(), id@),
            final(self).running() == old(self).running(),
            final(self).closing() == old(self).closing(),
            final(self).path_spec() == old(self).path_spec(),
            persist_outcome(persist, final(self).saved(), r),
            r matches Ok(b) ==> b == (task_position(old(self).tasks(), id@) is Some),
    {
        self.release_task(id, persist)
    }

    /// Takes a task that failed for good out of the queue; the result tells
    /// whether it was there.
    pub fn finalize_terminal_failure<F: FnOnce(&QueueState) -> Result<(), String>>(
        &mut self,
        id: &str,
        persist: F,
    ) -> (r: Result<bool, AppError>)
        requires
            forall|s: &QueueState| call_requires(persist, (s,)),
        ensures
            match task_position(old(self).tasks(), id@) {
                None => final(self).tasks() == old(self).tasks(),
                Some(p) => final(self).tasks() == old(self).tasks().remove(p),
            },
            final(self).current() == current_without(old(self).current(), id@),
            final(self).running() == old(self).running(),
            final(self).closing() == old(self).closing(),
            final(self).path_spec() == old(self).path_spec(),
            persist_outcome(persist, final(self).saved(), r),
            r matches Ok(b) ==> b == (task_position(old(self).tasks(), id@) is Some),
    {
        self.release_task(id, persist)
    }

    /// Handles a failed download of task `id`: while it has retries left it
    /// waits again, its progress and error cleared and its retry count one
    /// higher; otherwise the result holds the task as it ended, failed with
    /// `error_message`, and the queue keeps it as it was. Unless the task
    /// failed for good, it stops being the current task. While the application
    /// shuts down, failures are ignored and nothing changes.
    pub fn prepare_task_failure<F: FnOnce(&QueueState) -> Result<(), String>>(
        &mut self,
        id: &str,
        error_message: &str,
        persist: F,
    ) -> (r: Result<Option<TaskFailureTransition>, AppError>)
        requires
            forall|s: &QueueState| call_requires(persist, (s,)),
        ensures
            final(self).running() == old(self).running(),
            final(self).closing() == old(self).closing(),
            final(self).path_spec() == old(self).path_spec(),
            old(self).closing() ==> (r matches Ok(None)) && final(self).tasks() == old(self).tasks()
                && final(self).current() == old(self).current(),
            !old(self).closing() ==> {
                &&& persist_outcome(persist, final(self).saved(), r)
                &&& match task_position(old(self).tasks(), id@) {
                    None => {
                        &&& final(self).tasks() == old(self).tasks()
                        &&& final(self).current() == current_without(old(self).current(), id@)
                        &&& r matches Ok(t) ==> t is None
                    },
                    Some(p) => {
                        let before = old(self).tasks()[p];
                        if before.retry_count < MAX_RETRIES {
                            &&& final(self).tasks().len() == old(self).tasks().len()
                            &&& forall|j: int|
                                0 <= j < old(self).tasks().len() && j != p ==> final(self).tasks()[j]
                                    == old(self).tasks()[j]
                            &&& progress_cleared(
                                before,
                                final(self).tasks()[p],
                                TaskStatus::Waiting,
                                (before.retry_count + 1) as u8,
                                None,
                            )
                            &&& final(self).current() == current_without(old(self).current(), id@)
                            &&& r matches Ok(t) ==> (t matches Some(TaskFailureTransition::RetryScheduled))
                        } else {
                            &&& final(self).tasks() == old(self).tasks()
                            &&& final(self).current() == old(self).current()
                            &&& r matches Ok(t) ==> (t matches Some(TaskFailureTransition::Terminal(ended))
                                && failed_for_good(before, ended, error_message@))
                        }
                    },
                }
            },
    {
        if self.shutting_down {
            return Ok(None);
        }
        let ghost before = self.state.tasks@;
        let transition = match find_task_position(&self.state.tasks, id) {
            Some(position) => {
                if self.state.tasks[position].retry_count < MAX_RETRIES {
                    self.state.tasks[position].retry_count = self.state.tasks[position].retry_count + 1;
                    self.state.tasks[position].status = TaskStatus::Waiting;
                    self.state.tasks[position].progress_bits = PROGRESS_NONE;
                    self.state.tasks[position].speed = String::new();
                    self.state.tasks[position].threads = String::new();
                    self.state.tasks[position].error_message = None;
                    proof {
                        assert forall|j: int| 0 <= j < before.len() && j != position implies self.state.tasks@[j]
                            == before[j] by {}
                    }
                    Some(TaskFailureTransition::RetryScheduled)
                } else {
                    let mut task = self.state.tasks[position].duplicate();
                    task.status = TaskStatus::Failed;
                    task.error_message = Some(owned(error_message));
                    Some(TaskFailureTransition::Terminal(task))
                }
            },
            None => None,
        };
        let terminal = match &transition {
            Some(TaskFailureTransition::Terminal(_)) => true,
            _ => false,
        };
        if !terminal {
            let is_current = match &self.state.current_task_id {
                Some(current) => str_eq(current.as_str(), id),
                None => false,
            };
            if is_current {
                self.state.current_task_id = None;
            }
        }
        match self.persist(persist) {
            Ok(()) => Ok(transition),
            Err(e) => Err(e),
        }
    }

    /// Records the progress of task `id` as the download tool reports it: the
    /// progress when given, the speed and thread count when given and not
    /// empty. The change is not saved.
    pub fn update_task_progress(
        &mut self,
        id: &str,
        progress_bits: Option<u32>,
        speed: Option<String>,
        threads: Option<String>,
    )
        ensures
            final(self).current() == old(self).current(),
            final(self).running() == old(self).running(),
            final(self).closing() == old(self).closing(),
            final(self).path_spec() == old(self).path_spec(),
            final(self).tasks().len() == old(self).tasks().len(),
            match task_position(old(self).tasks(), id@) {
                None => final(self).tasks() == old(self).tasks(),
                Some(p) => {
                    let before = old(self).tasks()[p];
                    let after = final(self).tasks()[p];
                    &&& forall|j: int|
                        0 <= j < old(self).tasks().len() && j != p ==> final(self).tasks()[j]
                            == old(self).tasks()[j]
                    &&& after == Task {
                        progress_bits: after.progress_bits,
                        speed: after.speed,
                        threads: after.threads,
                        ..before
                    }
                    &&& after.progress_bits == match progress_bits {
                        Some(b) => b,
                        None => before.progress_bits,
                    }
                    &&& after.speed@ == match speed {
                        Some(v) => if v@.len() > 0 {
                            v@
                        } else {
                            before.speed@
                        },
                        None => before.speed@,
                    }
                    &&& after.threads@ == match threads {
                        Some(v) => if v@.len() > 0 {
                            v@
                        } else {
                            before.threads@
                        },
                        None => before.threads@,
                    }
                },
            },
    {
        let position = match find_task_position(&self.state.tasks, id) {
            Some(p) => p,
            None => {
                return ;
            },
        };
        let ghost before = self.state.tasks@;
        match progress_bits {
            Some(bits) => {
                self.state.tasks[position].progress_bits = bits;
            },
            None => {},
        }
        match speed {
            Some(value) => {
                if !value.as_str().is_empty() {
                    self.state.tasks[position].speed = value;
                }
            },
            None => {},
        }
        match threads {
            Some(value) => {
                if !value.as_str().is_empty() {
                    self.state.tasks[position].threads = value;
                }
            },
            None => {},
        }
        proof {
            assert forall|j: int| 0 <= j < before.len() && j != position implies self.state.tasks@[j]
                == before[j] by {}
        }
    }

    /// Ends a run that has nothing left to do: when the queue runs, no task is
    /// waiting or downloading and none is current, it stops and the result is
    /// `true`; otherwise nothing changes.
    pub fn finish_run_if_idle<F: FnOnce(&QueueState) -> Result<(), String>>(&mut self, persist: F) -> (r:
        Result<bool, AppError>)
        requires
            forall|s: &QueueState| call_requires(persist, (s,)),
        ensures
            final(self).tasks() == old(self).tasks(),
            final(self).current() == old(self).current(),
            final(self).closing() == old(self).closing(),
            final(self).path_spec() == old(self).path_spec(),
            ({
                let idle = old(self).running() && !has_live(old(self).tasks()) && old(self).current() is None;
                &&& idle ==> !final(self).running() && persist_outcome(persist, final(self).saved(), r)
                    && (r matches Ok(b) ==> b)
                &&& !idle ==> final(self).running() == old(self).running() && r == Ok::<bool, AppError>(false)
            }),
    {
        let live = self.has_live_work();
        if self.state.is_running && !live && self.state.current_task_id.is_none() {
            self.state.is_running = false;
            return match self.persist(persist) {
                Ok(()) => Ok(true),
                Err(e) => Err(e),
            };
        }
        Ok(false)
    }

    /// Prepares the queue for the application to exit: no further task starts
    /// or is handled, the queue stops, no task is current, and downloading
    /// tasks wait again with their progress cleared.
    pub fn prepare_for_exit<F: FnOnce(&QueueState) -> Result<(), String>>(&mut self, persist: F) -> (r:
        Result<(), AppError>)
        requires
            forall|s: &QueueState| call_requires(persist, (s,)),
        ensures
            final(self).closing(),
            !final(self).running(),
            final(self).current() is None,
            final(self).path_spec() == old(self).path_spec(),
            reset_for_exit(old(self).tasks(), final(self).tasks()),
            persist_outcome(persist, final(self).saved(), r),
    {
        self.shutting_down = true;
        self.state.is_running = false;
        self.state.current_task_id = None;
        let ghost before = self.state.tasks@;
        let mut i: usize = 0;
        while i < self.state.tasks.len()
            invariant
                i <= self.state.tasks@.len(),
                self.state.tasks@.len() == before.len(),
                self.shutting_down,
                !self.state.is_running,
                self.state.current_task_id is None,
                self.persistence_path == old(self).persistence_path,
                forall|j: int|
                    0 <= j < i ==> if before[j].status == TaskStatus::Downloading {
                        progress_cleared(
                            before[j],
                            #[trigger] self.state.tasks@[j],
                            TaskStatus::Waiting,
                            before[j].retry_count,
                            before[j].error_message,
                        )
                    } else {
                        self.state.tasks@[j] == before[j]
                    },
                forall|j: int| i <= j < before.len() ==> #[trigger] self.state.tasks@[j] == before[j],
            decreases self.state.tasks@.len() - i,
        {
            if self.state.tasks[i].status == TaskStatus::Downloading {
                self.state.tasks[i].status = TaskStatus::Waiting;
                self.state.tasks[i].progress_bits = PROGRESS_NONE;
                self.state.tasks[i].speed = String::new();
                self.state.tasks[i].threads = String::new();
            }
            i = i + 1;
        }
        self.persist(persist)
    }

    /// Starts the first waiting task, when the queue runs, no task is current
    /// and the application is not shutting down. The first task with its id
    /// becomes downloading, it becomes the current task, and the result holds
    /// it, downloading. Without a waiting task nothing changes.
    pub fn schedule_next<F: FnOnce(&QueueState) -> Result<(), String>>(&mut self, persist: F) -> (r:
        Result<Option<Task>, AppError>)
        requires
            forall|s: &QueueState| call_requires(persist, (s,)),
        ensures
            final(self).running() == old(self).running(),
            final(self).closing() == old(self).closing(),
            final(self).path_spec() == old(self).path_spec(),
            ({
                let blocked = old(self).closing() || old(self).current() is Some || !old(self).running();
                let s = old(self).tasks();
                &&& blocked ==> (r matches Ok(None)) && final(self).tasks() == s && final(self).current()
                    == old(self).current()
                &&& !blocked && (forall|j: int| 0 <= j < s.len() ==> s[j].status != TaskStatus::Waiting)
                    ==> (r matches Ok(None)) && final(self).tasks() == s && final(self).current()
                    == old(self).current()
                &&& forall|w: int|
                    !blocked && first_waiting_at(s, w) ==> {
                        let p = task_position(s, s[w].id@).unwrap();
                        &&& final(self).tasks() == s.update(
                            p,
                            Task { status: TaskStatus::Downloading, ..s[p] },
                        )
                        &&& final(self).current() == Some(s[w].id@)
                        &&& persist_outcome(persist, final(self).saved(), r)
                        &&& r matches Ok(t) ==> t == Some(Task { status: TaskStatus::Downloading, ..s[w] })
                    }
            }),
    {
        if self.shutting_down || self.state.current_task_id.is_some() || !self.state.is_running {
            return Ok(None);
        }
        let ghost s = self.state.tasks@;
        let mut w: usize = 0;
        while w < self.state.tasks.len()
            invariant
                w <= s.len(),
                self.state.tasks@ == s,
                forall|j: int| 0 <= j < w ==> s[j].status != TaskStatus::Waiting,
            ensures
                w <= s.len(),
                self.state.tasks@ == s,
                forall|j: int| 0 <= j < w ==> s[j].status != TaskStatus::Waiting,
                w < s.len() ==> s[w as int].status == TaskStatus::Waiting,
            decreases s.len() - w,
        {
            if self.state.tasks[w].status == TaskStatus::Waiting {
                break;
            }
            w = w + 1;
        }
        if w == self.state.tasks.len() {
            return Ok(None);
        }
        proof {
            assert(first_waiting_at(s, w as int));
            assert forall|v: int| first_waiting_at(s, v) implies v == w by {
                if v < w {
                    assert(s[v].status != TaskStatus::Waiting);
                }
                if w < v {
                    assert(s[w as int].status != TaskStatus::Waiting);
                }
            }
        }
        let mut task = self.state.tasks[w].duplicate();
        let position = match find_task_position(&self.state.tasks, task.id.as_str()) {
            Some(p) => p,
            None => {
                proof {
                    assert(s[w as int].id@ == task.id@);
                }
                return Ok(None);
            },
        };
        self.state.tasks[position].status = TaskStatus::Downloading;
        self.state.current_task_id = Some(task.id.clone());
        task.status = TaskStatus::Downloading;
        proof {
            assert(self.state.tasks@ =~= s.update(
                position as int,
                Task { status: TaskStatus::Downloading, ..s[position as int] },
            ));
        }
        match self.persist(persist) {
            Ok(()) => Ok(Some(task)),
            Err(e) => Err(e),
        }
    }

    /// Reorders the waiting tasks: those named in `task_ids` first, in that
    /// order, then the other waiting tasks; the tasks that do not wait come
    /// before them all, in their order.
    pub fn reorder_tasks<F: FnOnce(&QueueState) -> Result<(), String>>(
        &mut self,
        task_ids: Vec<String>,
        persist: F,
    ) -> (r: Result<(), AppError>)
        requires
            forall|s: &QueueState| call_requires(persist, (s,)),
        ensures
            final(self).tasks() == reordered_queue(old(self).tasks(), task_ids@),
            final(self).current() == old(self).current(),
            final(self).running() == old(self).running(),
            final(self).closing() == old(self).closing(),
            final(self).path_spec() == old(self).path_spec(),
            persist_outcome(persist, final(self).saved(), r),
    {
        let mut original: Vec<Task> = Vec::new();
        std::mem::swap(&mut original, &mut self.state.tasks);
        let ghost s = original@;
        let mut waiting: Vec<Task> = Vec::new();
        let mut non_waiting: Vec<Task> = Vec::new();
        let mut i: usize = 0;
        while i < original.len()
            invariant
                i <= original.len(),
                original@ == s,
                waiting@ == s.take(i as int).filter(|t: Task| waits(t)),
                non_waiting@ == s.take(i as int).filter(|t: Task| does_not_wait(t)),
            decreases original.len() - i,
        {
            let t = original[i].duplicate();
            proof {
                reveal(Seq::filter);
                assert(s.take(i + 1).drop_last() =~= s.take(i as int));
                assert(s.take(i + 1).last() == t);
            }
            if t.status == TaskStatus::Waiting {
                waiting.push(t);
            } else {
                non_waiting.push(t);
            }
            i = i + 1;
        }
        proof {
            assert(s.take(s.len() as int) =~= s);
        }
        let ghost w0 = waiting@;
        let mut picked: Vec<Task> = Vec::new();
        let mut k: usize = 0;
        proof {
            assert(task_ids@.skip(0) =~= task_ids@);
            assert(picked@ + take_by_ids(w0, task_ids@).0 =~= take_by_ids(w0, task_ids@).0);
        }
        while k < task_ids.len()
            invariant
                k <= task_ids.len(),
                take_by_ids(w0, task_ids@) == (picked@ + take_by_ids(
                    waiting@,
                    task_ids@.skip(k as int),
                ).0, take_by_ids(waiting@, task_ids@.skip(k as int)).1),
            decreases task_ids.len() - k,
        {
            let ghost ids_k = task_ids@.skip(k as int);
            proof {
                assert(ids_k[0] == task_ids@[k as int]);
                assert(ids_k.drop_first() =~= task_ids@.skip(k + 1));
            }
            match find_task_position(&waiting, task_ids[k].as_str()) {
                Some(p) => {
                    let ghost before = waiting@;
                    let t = waiting.remove(p);
                    picked.push(t);
                    proof {
                        assert(picked@ + take_by_ids(waiting@, task_ids@.skip(k + 1)).0 =~= (picked@.drop_last()) + (seq![before[p as int]] + take_by_ids(waiting@, task_ids@.skip(k + 1)).0));
                    }
                },
                None => {},
            }
            k = k + 1;
        }
        proof {
            assert(task_ids@.skip(k as int) =~= Seq::<String>::empty());
        }
        picked.append(&mut waiting);
        non_waiting.append(&mut picked);
        self.state.tasks = non_waiting;
        self.persist(persist)
    }
}

} // verus!
