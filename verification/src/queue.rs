//! The download queue: its tasks, the task being downloaded, whether the queue
//! runs, and the finished tasks waiting to be written to history.
use vstd::prelude::*;
use crate::retry_policy::{RetryDecision, RetryPolicy};
use crate::task::{Task, TaskStatus};
use crate::text::{opt_view, owned, str_eq, trim_seq, trimmed_owned};

verus! {

broadcast use vstd::string::group_string_axioms;

// ---------------------------------------------------------------------------
// Searching a sequence of tasks
// ---------------------------------------------------------------------------

/// `i` is the first position in `s` of a task with id `id`.
pub open spec fn first_match(s: Seq<Task>, id: Seq<char>, i: int) -> bool {
    &&& 0 <= i < s.len()
    &&& s[i].id@ == id
    &&& forall|j: int| 0 <= j < i ==> s[j].id@ != id
}

/// The position of the first task in `s` with id `id`, if any.
pub open spec fn position_of(s: Seq<Task>, id: Seq<char>) -> Option<int> {
    if exists|i: int| first_match(s, id, i) {
        Some(choose|i: int| first_match(s, id, i))
    } else {
        None
    }
}

/// Whether some task in `s` has id `id`.
pub open spec fn has_id(s: Seq<Task>, id: Seq<char>) -> bool {
    exists|i: int| 0 <= i < s.len() && #[trigger] s[i].id@ == id
}

pub proof fn lemma_position_of_first(s: Seq<Task>, id: Seq<char>, i: int)
    requires
        first_match(s, id, i),
    ensures
        position_of(s, id) == Some(i),
{
    let j = choose|j: int| first_match(s, id, j);
    assert(first_match(s, id, j));
    if j < i {
        assert(s[j].id@ != id);
    }
    if i < j {
        assert(s[i].id@ != id);
    }
}

pub proof fn lemma_position_of_none(s: Seq<Task>, id: Seq<char>)
    requires
        forall|j: int| 0 <= j < s.len() ==> s[j].id@ != id,
    ensures
        position_of(s, id) is None,
        !has_id(s, id),
{
}

pub proof fn lemma_position_of_facts(s: Seq<Task>, id: Seq<char>)
    ensures
        position_of(s, id) matches Some(p) ==> first_match(s, id, p),
        position_of(s, id) is None <==> !has_id(s, id),
{
    if position_of(s, id) is None {
        if has_id(s, id) {
            let k = choose|k: int| 0 <= k < s.len() && #[trigger] s[k].id@ == id;
            lemma_exists_first(s, id, k);
        }
    } else {
        let p = position_of(s, id)->0;
        assert(s[p].id@ == id);
    }
}

proof fn lemma_exists_first(s: Seq<Task>, id: Seq<char>, k: int)
    requires
        0 <= k < s.len(),
        s[k].id@ == id,
    ensures
        exists|i: int| first_match(s, id, i),
    decreases k,
{
    if forall|j: int| 0 <= j < k ==> s[j].id@ != id {
        assert(first_match(s, id, k));
    } else {
        let j = choose|j: int| 0 <= j < k && s[j].id@ != id == false;
        lemma_exists_first(s, id, j);
    }
}

/// The position of the first task with id `id`.
pub fn find_position(tasks: &Vec<Task>, id: &str) -> (r: Option<usize>)
    ensures
        r matches Some(i) ==> position_of(tasks@, id@) == Some(i as int),
        r is None ==> position_of(tasks@, id@) is None,
{
    let mut i: usize = 0;
    while i < tasks.len()
        invariant
            i <= tasks.len(),
            forall|j: int| 0 <= j < i ==> tasks@[j].id@ != id@,
        decreases tasks.len() - i,
    {
        if str_eq(tasks[i].id.as_str(), id) {
            proof {
                lemma_position_of_first(tasks@, id@, i as int);
            }
            return Some(i);
        }
        i = i + 1;
    }
    proof {
        lemma_position_of_none(tasks@, id@);
    }
    None
}

/// `t` with its status replaced.
pub open spec fn with_status(t: Task, status: TaskStatus) -> Task {
    Task { status, ..t }
}

/// The message given to a task stopped at the user's request.
pub open spec fn stopped_by_user_message() -> Seq<char> {
    "Stopped by user"@
}

/// A requested save name as the queue keeps it: trimmed, and absent when
/// nothing but white space was given.
pub open spec fn normalized_save_name(name: Option<Seq<char>>) -> Option<Seq<char>> {
    match name {
        Some(n) => if trim_seq(n).len() > 0 {
            Some(trim_seq(n))
        } else {
            None
        },
        None => None,
    }
}

/// The first waiting task in `s` is at `i`.
pub open spec fn first_waiting(s: Seq<Task>, i: int) -> bool {
    &&& 0 <= i < s.len()
    &&& s[i].status is Waiting
    &&& forall|j: int| 0 <= j < i ==> !(s[j].status is Waiting)
}

/// Whether some task in `s` is waiting or downloading.
pub open spec fn any_live(s: Seq<Task>) -> bool {
    exists|i: int| 0 <= i < s.len() && (#[trigger] s[i].status).live()
}

/// `s` with every downloading task put back to waiting.
pub open spec fn reset_downloading(s: Seq<Task>) -> Seq<Task> {
    Seq::new(
        s.len(),
        |i: int|
            if s[i].status is Downloading {
                with_status(s[i], TaskStatus::Waiting)
            } else {
                s[i]
            },
    )
}


/// Whether `t` is waiting.
pub open spec fn is_waiting_task(t: Task) -> bool {
    t.status is Waiting
}

/// Whether `t` is not waiting.
pub open spec fn is_not_waiting_task(t: Task) -> bool {
    !(t.status is Waiting)
}

/// Takes out of `remaining`, for each id of `ids` in turn, the first task with
/// that id; ids with no such task are skipped. Returns the tasks taken, in the
/// order of `ids`, and what is left of `remaining`, in its order.
pub open spec fn pick_by_ids(remaining: Seq<Task>, ids: Seq<String>) -> (Seq<Task>, Seq<Task>)
    decreases ids.len(),
{
    if ids.len() == 0 {
        (Seq::empty(), remaining)
    } else {
        match position_of(remaining, ids[0]@) {
            Some(p) => {
                let rest = pick_by_ids(remaining.remove(p), ids.drop_first());
                (seq![remaining[p]] + rest.0, rest.1)
            },
            None => pick_by_ids(remaining, ids.drop_first()),
        }
    }
}

/// The queue after a reorder request: the tasks that are not waiting keep their
/// order and come first; then the waiting tasks named in `ids`, in the order of
/// `ids`; then the other waiting tasks, in their former order.
pub open spec fn reordered(s: Seq<Task>, ids: Seq<String>) -> Seq<Task> {
    let picked = pick_by_ids(s.filter(|t: Task| is_waiting_task(t)), ids);
    s.filter(|t: Task| is_not_waiting_task(t)) + picked.0 + picked.1
}

// ---------------------------------------------------------------------------
// Outcomes
// ---------------------------------------------------------------------------

pub enum RemoveTaskResult {
    Removed,
    Missing,
    InvalidStatus { status: TaskStatus },
}

pub enum RetryTaskResult {
    Retried(Task),
    Missing,
    InvalidStatus { status: TaskStatus },
}

pub enum StopTaskResult {
    Stopped(Task),
    Missing,
    NotDownloading { status: TaskStatus },
}

pub enum UpdateSaveNameResult {
    Updated,
    Missing,
    NotWaiting { status: TaskStatus },
}

pub enum StageTerminalHistoryResult {
    Staged(Task),
    Missing,
    InvalidStatus { status: TaskStatus },
}

pub enum StageTaskCompletionOutcome {
    Staged(Task),
    Missing,
}

#[derive(Debug, Clone, Copy, PartialEq, Eq, Structural)]
pub enum FinishRunOutcome {
    Finished,
    StillActive,
}

#[derive(Debug, Clone, Copy, PartialEq, Eq, Structural)]
pub enum ClearPendingHistoryOutcome {
    Cleared,
    Missing,
}

#[derive(Debug, Clone, Copy, PartialEq, Eq, Structural)]
pub enum AddTaskOutcome {
    ScheduleRequested,
    AddedWithoutScheduling,
}

pub enum ScheduleNextTaskOutcome {
    Scheduled(Task),
    NoTaskReady,
}

#[derive(Debug, Clone, Copy, PartialEq, Eq, Structural)]
pub enum TaskFailureTransition {
    RetryScheduled,
    Terminal,
}

#[derive(Debug, Clone, Copy, PartialEq, Eq, Structural)]
pub enum PrepareTaskFailureOutcome {
    Transition(TaskFailureTransition),
    Ignored,
}

// ---------------------------------------------------------------------------
// The tasks of the queue
// ---------------------------------------------------------------------------

/// The queued tasks, in queue order.
#[derive(Debug, Clone, Default)]
pub struct QueueTasks {
    tasks: Vec<Task>,
}

impl View for QueueTasks {
    type V = Seq<Task>;

    closed spec fn view(&self) -> Seq<Task> {
        self.tasks@
    }
}

impl QueueTasks {
    pub fn from_tasks(tasks: Vec<Task>) -> (r: QueueTasks)
        ensures
            r@ == tasks@,
    {
        QueueTasks { tasks }
    }

    pub fn empty() -> (r: QueueTasks)
        ensures
            r@ == Seq::<Task>::empty(),
    {
        QueueTasks { tasks: Vec::new() }
    }

    pub fn as_slice(&self) -> (r: &[Task])
        ensures
            r@ == self@,
    {
        self.tasks.as_slice()
    }

    pub fn push(&mut self, task: Task)
        ensures
            final(self)@ == old(self)@.push(task),
    {
        self.tasks.push(task);
    }

    pub fn has_live_work(&self) -> (r: bool)
        ensures
            r == any_live(self@),
    {
        let mut i: usize = 0;
        while i < self.tasks.len()
            invariant
                i <= self.tasks.len(),
                forall|j: int| 0 <= j < i ==> !(#[trigger] self.tasks@[j].status).live(),
            decreases self.tasks.len() - i,
        {
            if self.tasks[i].status.is_live_work() {
                return true;
            }
            i = i + 1;
        }
        false
    }

    /// Marks the first waiting task as downloading and returns a copy of it.
    pub fn schedule_next_download(&mut self) -> (r: Option<Task>)
        ensures
            r matches Some(t) ==> exists|i: int|
                first_waiting(old(self)@, i) && t == with_status(old(self)@[i], TaskStatus::Downloading)
                    && final(self)@ == old(self)@.update(i, t),
            r is None ==> (forall|j: int|
                0 <= j < old(self)@.len() ==> !(#[trigger] old(self)@[j].status is Waiting)),
            r is None ==> final(self)@ == old(self)@,
    {
        let mut i: usize = 0;
        while i < self.tasks.len()
            invariant
                i <= self.tasks.len(),
                self.tasks@ == old(self)@,
                forall|j: int| 0 <= j < i ==> !(#[trigger] self.tasks@[j].status is Waiting),
            decreases self.tasks.len() - i,
        {
            if self.tasks[i].status.is_waiting() {
                self.tasks[i].status = TaskStatus::Downloading;
                let t = self.tasks[i].duplicate();
                proof {
                    assert(first_waiting(old(self)@, i as int));
                    assert(self.tasks@ =~= old(self)@.update(i as int, t));
                }
                return Some(t);
            }
            i = i + 1;
        }
        None
    }

    pub fn remove_task(&mut self, id: &str) -> (r: RemoveTaskResult)
        ensures
            match position_of(old(self)@, id@) {
                None => r is Missing && final(self)@ == old(self)@,
                Some(p) => if old(self)@[p].status.removable() {
                    r is Removed && final(self)@ == old(self)@.remove(p)
                } else {
                    r == (RemoveTaskResult::InvalidStatus { status: old(self)@[p].status })
                        && final(self)@ == old(self)@
                },
            },
    {
        let position = match find_position(&self.tasks, id) {
            Some(p) => p,
            None => return RemoveTaskResult::Missing,
        };
        if !self.tasks[position].status.can_remove_from_queue() {
            return RemoveTaskResult::InvalidStatus { status: self.tasks[position].status };
        }
        self.tasks.remove(position);
        RemoveTaskResult::Removed
    }

    pub fn retry_task(&mut self, id: &str) -> (r: RetryTaskResult)
        ensures
            match position_of(old(self)@, id@) {
                None => r is Missing && final(self)@ == old(self)@,
                Some(p) => if old(self)@[p].status is Failed || old(self)@[p].status is Cancelled {
                    let t = Task {
                        status: TaskStatus::Waiting,
                        error_message: None,
                        ..old(self)@[p]
                    };
                    r == RetryTaskResult::Retried(t) && final(self)@ == old(self)@.update(p, t)
                } else {
                    r == (RetryTaskResult::InvalidStatus { status: old(self)@[p].status })
                        && final(self)@ == old(self)@
                },
            },
    {
        let position = match find_position(&self.tasks, id) {
            Some(p) => p,
            None => return RetryTaskResult::Missing,
        };
        if !self.tasks[position].status.is_failed() && !self.tasks[position].status.is_cancelled() {
            return RetryTaskResult::InvalidStatus { status: self.tasks[position].status };
        }
        self.tasks[position].status = TaskStatus::Waiting;
        self.tasks[position].error_message = None;
        let t = self.tasks[position].duplicate();
        proof {
            assert(self.tasks@ =~= old(self)@.update(position as int, t));
        }
        RetryTaskResult::Retried(t)
    }

    pub fn stop_task(&mut self, id: &str) -> (r: StopTaskResult)
        ensures
            match position_of(old(self)@, id@) {
                None => r is Missing && final(self)@ == old(self)@,
                Some(p) => if old(self)@[p].status is Downloading {
                    exists|m: String|
                        #![trigger m@]
                        m@ == stopped_by_user_message() && {
                            let t = Task {
                                status: TaskStatus::Cancelled,
                                error_message: Some(m),
                                ..old(self)@[p]
                            };
                            r == StopTaskResult::Stopped(t) && final(self)@ == old(self)@.update(p, t)
                        }
                } else {
                    r == (StopTaskResult::NotDownloading { status: old(self)@[p].status })
                        && final(self)@ == old(self)@
                },
            },
    {
        let position = match find_position(&self.tasks, id) {
            Some(p) => p,
            None => return StopTaskResult::Missing,
        };
        if !self.tasks[position].status.is_downloading() {
            return StopTaskResult::NotDownloading { status: self.tasks[position].status };
        }
        let m = owned("Stopped by user");
        proof {
            reveal_strlit("Stopped by user");
        }
        self.tasks[position].status = TaskStatus::Cancelled;
        self.tasks[position].error_message = Some(m);
        let t = self.tasks[position].duplicate();
        proof {
            assert(self.tasks@ =~= old(self)@.update(position as int, t));
            assert(t.error_message->0@ == stopped_by_user_message());
        }
        StopTaskResult::Stopped(t)
    }

    pub fn update_save_name(&mut self, id: &str, save_name: Option<String>) -> (r:
        UpdateSaveNameResult)
        ensures
            match position_of(old(self)@, id@) {
                None => r is Missing && final(self)@ == old(self)@,
                Some(p) => if old(self)@[p].status is Waiting {
                    r is Updated && final(self)@.len() == old(self)@.len() && final(self)@[p] == Task {
                        save_name: final(self)@[p].save_name,
                        ..old(self)@[p]
                    } && opt_view(final(self)@[p].save_name) == normalized_save_name(
                        opt_view(save_name),
                    ) && final(self)@ == old(self)@.update(p, final(self)@[p])
                } else {
                    r == (UpdateSaveNameResult::NotWaiting { status: old(self)@[p].status })
                        && final(self)@ == old(self)@
                },
            },
    {
        let position = match find_position(&self.tasks, id) {
            Some(p) => p,
            None => return UpdateSaveNameResult::Missing,
        };
        if !self.tasks[position].status.is_waiting() {
            return UpdateSaveNameResult::NotWaiting { status: self.tasks[position].status };
        }
        let normalized = match save_name {
            Some(s) => {
                let t = trimmed_owned(s.as_str());
                if t.as_str().is_empty() {
                    None
                } else {
                    Some(t)
                }
            },
            None => None,
        };
        self.tasks[position].save_name = normalized;
        proof {
            assert(self.tasks@ =~= old(self)@.update(position as int, self.tasks@[position as int]));
        }
        UpdateSaveNameResult::Updated
    }

    pub fn reorder_waiting_tasks(&mut self, task_ids: Vec<String>)
        ensures
            final(self)@ == reordered(old(self)@, task_ids@),
    {
        let mut original: Vec<Task> = Vec::new();
        std::mem::swap(&mut original, &mut self.tasks);
        let ghost s = original@;
        let mut waiting: Vec<Task> = Vec::new();
        let mut non_waiting: Vec<Task> = Vec::new();
        let mut i: usize = 0;
        while i < original.len()
            invariant
                i <= original.len(),
                original@ == s,
                waiting@ == s.take(i as int).filter(|t: Task| is_waiting_task(t)),
                non_waiting@ == s.take(i as int).filter(|t: Task| is_not_waiting_task(t)),
            decreases original.len() - i,
        {
            let t = original[i].duplicate();
            proof {
                reveal(Seq::filter);
                assert(s.take(i + 1).drop_last() =~= s.take(i as int));
                assert(s.take(i + 1).last() == t);
            }
            if t.status.is_waiting() {
                waiting.push(t);
            } else {
                non_waiting.push(t);
            }
            i = i + 1;
        }
        proof {
            assert(s.take(s.len() as int) =~= s);
        }
        let ghost w0 = waiting@;
        let mut picked: Vec<Task> = Vec::new();
        let mut k: usize = 0;
        proof {
            assert(task_ids@.skip(0) =~= task_ids@);
            assert(picked@ + pick_by_ids(w0, task_ids@).0 =~= pick_by_ids(w0, task_ids@).0);
        }
        while k < task_ids.len()
            invariant
                k <= task_ids.len(),
                pick_by_ids(w0, task_ids@) == (picked@ + pick_by_ids(
                    waiting@,
                    task_ids@.skip(k as int),
                ).0, pick_by_ids(waiting@, task_ids@.skip(k as int)).1),
            decreases task_ids.len() - k,
        {
            let ghost ids_k = task_ids@.skip(k as int);
            proof {
                assert(ids_k[0] == task_ids@[k as int]);
                assert(ids_k.drop_first() =~= task_ids@.skip(k + 1));
            }
            match find_position(&waiting, task_ids[k].as_str()) {
                Some(p) => {
                    let ghost before = waiting@;
                    let t = waiting.remove(p);
                    picked.push(t);
                    proof {
                        assert(picked@ + pick_by_ids(waiting@, task_ids@.skip(k + 1)).0 =~= (picked@.drop_last()) + (seq![before[p as int]] + pick_by_ids(waiting@, task_ids@.skip(k + 1)).0));
                    }
                },
                None => {},
            }
            k = k + 1;
        }
        proof {
            assert(task_ids@.skip(k as int) =~= Seq::<String>::empty());
        }
        picked.append(&mut waiting);
        non_waiting.append(&mut picked);
        self.tasks = non_waiting;
    }

    /// Applies the retry policy to the failed download of task `id`.
    pub fn prepare_task_failure(&mut self, id: &str, error_message: &str) -> (r:
        PrepareTaskFailureOutcome)
        ensures
            match position_of(old(self)@, id@) {
                None => r is Ignored && final(self)@ == old(self)@,
                Some(p) => match RetryPolicy::default_policy_spec().decision(
                    old(self)@[p].retry_count,
                ) {
                    RetryDecision::Retry { next_retry_count } => r == PrepareTaskFailureOutcome::Transition(
                        TaskFailureTransition::RetryScheduled,
                    ) && final(self)@ == old(self)@.update(
                        p,
                        Task {
                            retry_count: next_retry_count,
                            status: TaskStatus::Waiting,
                            error_message: None,
                            ..old(self)@[p]
                        },
                    ),
                    RetryDecision::Terminal => r == PrepareTaskFailureOutcome::Transition(
                        TaskFailureTransition::Terminal,
                    ) && final(self)@.len() == old(self)@.len() && final(self)@[p] == Task {
                        status: TaskStatus::Failed,
                        error_message: final(self)@[p].error_message,
                        ..old(self)@[p]
                    } && opt_view(final(self)@[p].error_message) == Some(error_message@)
                        && final(self)@ == old(self)@.update(p, final(self)@[p]),
                },
            },
    {
        let position = match find_position(&self.tasks, id) {
            Some(p) => p,
            None => return PrepareTaskFailureOutcome::Ignored,
        };
        match RetryPolicy::default_policy().decide(self.tasks[position].retry_count) {
            RetryDecision::Retry { next_retry_count } => {
                self.tasks[position].retry_count = next_retry_count;
                self.tasks[position].status = TaskStatus::Waiting;
                self.tasks[position].error_message = None;
                proof {
                    assert(self.tasks@ =~= old(self)@.update(position as int, self.tasks@[position as int]));
                }
                PrepareTaskFailureOutcome::Transition(TaskFailureTransition::RetryScheduled)
            },
            RetryDecision::Terminal => {
                self.tasks[position].status = TaskStatus::Failed;
                self.tasks[position].error_message = Some(owned(error_message));
                proof {
                    assert(self.tasks@ =~= old(self)@.update(position as int, self.tasks@[position as int]));
                }
                PrepareTaskFailureOutcome::Transition(TaskFailureTransition::Terminal)
            },
        }
    }

    /// Takes task `id` out of the queue, marked completed and without an error.
    pub fn stage_task_completion(&mut self, id: &str) -> (r: StageTaskCompletionOutcome)
        ensures
            match position_of(old(self)@, id@) {
                None => r is Missing && final(self)@ == old(self)@,
                Some(p) => r == StageTaskCompletionOutcome::Staged(
                    Task { status: TaskStatus::Completed, error_message: None, ..old(self)@[p] },
                ) && final(self)@ == old(self)@.remove(p),
            },
    {
        let position = match find_position(&self.tasks, id) {
            Some(p) => p,
            None => return StageTaskCompletionOutcome::Missing,
        };
        let mut task = self.tasks.remove(position);
        task.status = TaskStatus::Completed;
        task.error_message = None;
        StageTaskCompletionOutcome::Staged(task)
    }

    /// Takes the failed task `id` out of the queue.
    pub fn stage_terminal_history_task(&mut self, id: &str) -> (r: StageTerminalHistoryResult)
        ensures
            match position_of(old(self)@, id@) {
                None => r is Missing && final(self)@ == old(self)@,
                Some(p) => if old(self)@[p].status is Failed {
                    r == StageTerminalHistoryResult::Staged(old(self)@[p]) && final(self)@ == old(
                        self,
                    )@.remove(p)
                } else {
                    r == (StageTerminalHistoryResult::InvalidStatus { status: old(self)@[p].status })
                        && final(self)@ == old(self)@
                },
            },
    {
        let position = match find_position(&self.tasks, id) {
            Some(p) => p,
            None => return StageTerminalHistoryResult::Missing,
        };
        if !self.tasks[position].status.is_failed() {
            return StageTerminalHistoryResult::InvalidStatus { status: self.tasks[position].status };
        }
        StageTerminalHistoryResult::Staged(self.tasks.remove(position))
    }

    /// Puts every downloading task back to waiting.
    pub fn reset_downloading_tasks_for_exit(&mut self)
        ensures
            final(self)@ == reset_downloading(old(self)@),
    {
        let mut i: usize = 0;
        while i < self.tasks.len()
            invariant
                i <= self.tasks.len(),
                self.tasks@.len() == old(self)@.len(),
                forall|j: int|
                    0 <= j < i ==> #[trigger] self.tasks@[j] == reset_downloading(old(self)@)[j],
                forall|j: int| i <= j < self.tasks@.len() ==> #[trigger] self.tasks@[j] == old(self)@[j],
            decreases self.tasks.len() - i,
        {
            if self.tasks[i].status.is_downloading() {
                self.tasks[i].status = TaskStatus::Waiting;
            }
            i = i + 1;
        }
        proof {
            assert(self.tasks@ =~= reset_downloading(old(self)@));
        }
    }

    /// Marks task `id`, if queued, as failed with `error_message`.
    pub fn pause_after_failure_persistence_error(&mut self, id: &str, error_message: &str)
        ensures
            match position_of(old(self)@, id@) {
                None => final(self)@ == old(self)@,
                Some(p) => final(self)@.len() == old(self)@.len() && final(self)@[p] == Task {
                    status: TaskStatus::Failed,
                    error_message: final(self)@[p].error_message,
                    ..old(self)@[p]
                } && opt_view(final(self)@[p].error_message) == Some(error_message@)
                    && final(self)@ == old(self)@.update(p, final(self)@[p]),
            },
    {
        if let Some(position) = find_position(&self.tasks, id) {
            self.tasks[position].status = TaskStatus::Failed;
            self.tasks[position].error_message = Some(owned(error_message));
            proof {
                assert(self.tasks@ =~= old(self)@.update(position as int, self.tasks@[position as int]));
            }
        }
    }
}

// ---------------------------------------------------------------------------
// Finished tasks not yet written to history
// ---------------------------------------------------------------------------

/// Whether `t` ended in a way that history records.
pub open spec fn is_terminal_task(t: Task) -> bool {
    t.status is Completed || t.status is Failed
}

/// The test "ended in a way that history records".
pub open spec fn terminal_pred() -> spec_fn(Task) -> bool {
    |t: Task| is_terminal_task(t)
}

/// No two tasks in `s` share an id.
pub open spec fn ids_unique(s: Seq<Task>) -> bool {
    forall|i: int, j: int| 0 <= i < j < s.len() ==> #[trigger] s[i].id@ != #[trigger] s[j].id@
}

/// The test "has an id other than `id`".
pub open spec fn id_differs(id: Seq<char>) -> spec_fn(Task) -> bool {
    |t: Task| t.id@ != id
}

/// Tasks that left the queue and still have to be appended to history.
#[derive(Debug, Clone, Default)]
pub struct QueuePendingHistory {
    tasks: Vec<Task>,
}

impl View for QueuePendingHistory {
    type V = Seq<Task>;

    closed spec fn view(&self) -> Seq<Task> {
        self.tasks@
    }
}

/// Copies of the tasks of `tasks`, in order.
pub fn duplicate_all(tasks: &Vec<Task>) -> (r: Vec<Task>)
    ensures
        r@ == tasks@,
{
    let mut out: Vec<Task> = Vec::new();
    let mut i: usize = 0;
    while i < tasks.len()
        invariant
            i <= tasks.len(),
            out@ == tasks@.take(i as int),
        decreases tasks.len() - i,
    {
        out.push(tasks[i].duplicate());
        proof {
            assert(tasks@.take(i as int).push(tasks@[i as int]) =~= tasks@.take(i + 1));
        }
        i = i + 1;
    }
    proof {
        assert(tasks@.take(tasks@.len() as int) =~= tasks@);
    }
    out
}

impl QueuePendingHistory {
    pub fn from_tasks(tasks: Vec<Task>) -> (r: QueuePendingHistory)
        ensures
            r@ == tasks@,
    {
        QueuePendingHistory { tasks }
    }

    pub fn empty() -> (r: QueuePendingHistory)
        ensures
            r@ == Seq::<Task>::empty(),
    {
        QueuePendingHistory { tasks: Vec::new() }
    }

    pub fn tasks(&self) -> (r: &[Task])
        ensures
            r@ == self@,
    {
        self.tasks.as_slice()
    }

    pub fn snapshot(&self) -> (r: Vec<Task>)
        ensures
            r@ == self@,
    {
        duplicate_all(&self.tasks)
    }

    /// Adds `task` unless a task with its id is already pending.
    pub fn push_unique(&mut self, task: Task)
        ensures
            has_id(old(self)@, task.id@) ==> final(self)@ == old(self)@,
            !has_id(old(self)@, task.id@) ==> final(self)@ == old(self)@.push(task),
    {
        let found = find_position(&self.tasks, task.id.as_str());
        proof {
            lemma_position_of_facts(old(self)@, task.id@);
        }
        if found.is_none() {
            self.tasks.push(task);
        }
    }

    /// Drops every pending task with id `id`.
    pub fn clear_task(&mut self, id: &str) -> (r: ClearPendingHistoryOutcome)
        ensures
            (r is Cleared) == has_id(old(self)@, id@),
            final(self)@ == old(self)@.filter(id_differs(id@)),
    {
        let found = find_position(&self.tasks, id);
        proof {
            lemma_position_of_facts(old(self)@, id@);
        }
        let mut kept: Vec<Task> = Vec::new();
        let mut i: usize = 0;
        while i < self.tasks.len()
            invariant
                i <= self.tasks.len(),
                self.tasks@ == old(self)@,
                kept@ == old(self)@.take(i as int).filter(id_differs(id@)),
            decreases self.tasks.len() - i,
        {
            proof {
                reveal(Seq::filter);
                assert(old(self)@.take(i + 1).drop_last() =~= old(self)@.take(i as int));
            }
            if !str_eq(self.tasks[i].id.as_str(), id) {
                kept.push(self.tasks[i].duplicate());
            }
            i = i + 1;
        }
        proof {
            assert(old(self)@.take(old(self)@.len() as int) =~= old(self)@);
        }
        if found.is_none() {
            proof {
                lemma_filter_keeps_all(old(self)@, id@);
            }
            return ClearPendingHistoryOutcome::Missing;
        }
        self.tasks = kept;
        ClearPendingHistoryOutcome::Cleared
    }

    /// Keeps only the completed and failed tasks.
    pub fn retain_terminal_tasks(&mut self)
        ensures
            final(self)@ == old(self)@.filter(terminal_pred()),
    {
        let mut kept: Vec<Task> = Vec::new();
        let mut i: usize = 0;
        while i < self.tasks.len()
            invariant
                i <= self.tasks.len(),
                self.tasks@ == old(self)@,
                kept@ == old(self)@.take(i as int).filter(terminal_pred()),
            decreases self.tasks.len() - i,
        {
            proof {
                reveal(Seq::filter);
                assert(old(self)@.take(i + 1).drop_last() =~= old(self)@.take(i as int));
            }
            let st = self.tasks[i].status;
            if matches!(st, TaskStatus::Completed | TaskStatus::Failed) {
                kept.push(self.tasks[i].duplicate());
            }
            i = i + 1;
        }
        proof {
            assert(old(self)@.take(old(self)@.len() as int) =~= old(self)@);
        }
        self.tasks = kept;
    }
}

/// Filtering out an id that no task has keeps the sequence as it is.
pub proof fn lemma_filter_keeps_all(s: Seq<Task>, id: Seq<char>)
    requires
        !has_id(s, id),
    ensures
        s.filter(id_differs(id)) == s,
    decreases s.len(),
{
    reveal(Seq::filter);
    if s.len() > 0 {
        assert(!has_id(s.drop_last(), id)) by {
            if has_id(s.drop_last(), id) {
                let k = choose|k: int| 0 <= k < s.drop_last().len() && #[trigger] s.drop_last()[k].id@ == id;
                assert(s[k] == s.drop_last()[k]);
            }
        }
        lemma_filter_keeps_all(s.drop_last(), id);
        assert(s.last() == s[s.len() - 1]);
        assert(s.drop_last().push(s.last()) =~= s);
    }
}

// ---------------------------------------------------------------------------
// The current download and the run status
// ---------------------------------------------------------------------------

/// Whether the queue starts downloads.
#[derive(Debug, Clone, Copy, PartialEq, Eq, Structural)]
pub enum QueueRunStatus {
    Running,
    Paused,
}

impl QueueRunStatus {
    pub fn is_running(self) -> (r: bool)
        ensures
            r == (self is Running),
    {
        match self {
            QueueRunStatus::Running => true,
            QueueRunStatus::Paused => false,
        }
    }

    pub fn from_is_running(is_running: bool) -> (r: QueueRunStatus)
        ensures
            (r is Running) == is_running,
    {
        if is_running {
            QueueRunStatus::Running
        } else {
            QueueRunStatus::Paused
        }
    }
}

/// The task being downloaded, if any.
#[derive(Debug, Clone)]
pub enum QueueCurrentTask {
    Assigned(String),
    Unassigned,
}

impl QueueCurrentTask {
    /// The id of the current task, as characters.
    pub open spec fn id_view(self) -> Option<Seq<char>> {
        match self {
            QueueCurrentTask::Assigned(id) => Some(id@),
            QueueCurrentTask::Unassigned => None,
        }
    }

    pub fn from_task_id(task_id: Option<String>) -> (r: QueueCurrentTask)
        ensures
            r.id_view() == opt_view(task_id),
            task_id matches Some(id) ==> r == QueueCurrentTask::Assigned(id),
    {
        match task_id {
            Some(task_id) => QueueCurrentTask::Assigned(task_id),
            None => QueueCurrentTask::Unassigned,
        }
    }

    pub fn task_id(&self) -> (r: Option<&str>)
        ensures
            match r {
                Some(s) => self.id_view() == Some(s@),
                None => self.id_view() is None,
            },
    {
        match self {
            QueueCurrentTask::Assigned(task_id) => Some(task_id.as_str()),
            QueueCurrentTask::Unassigned => None,
        }
    }

    pub fn is_assigned(&self) -> (r: bool)
        ensures
            r == (*self is Assigned),
    {
        match self {
            QueueCurrentTask::Assigned(_) => true,
            QueueCurrentTask::Unassigned => false,
        }
    }
}

// ---------------------------------------------------------------------------
// The queue as a whole
// ---------------------------------------------------------------------------

/// The download queue.
#[derive(Debug, Clone)]
pub struct QueueAggregate {
    pub tasks: QueueTasks,
    pub current_task: QueueCurrentTask,
    pub run_status: QueueRunStatus,
    pub pending_history: QueuePendingHistory,
    pub retry_policy: RetryPolicy,
}

/// `cur` after the task `id` stops being current: cleared when it was `id`,
/// left as it was otherwise.
pub open spec fn current_after_release(cur: QueueCurrentTask, id: Seq<char>) -> QueueCurrentTask {
    if cur.id_view() == Some(id) {
        QueueCurrentTask::Unassigned
    } else {
        cur
    }
}

/// `pending` after `task` is offered to it: unchanged when a task with the same
/// id is already pending, extended by `task` otherwise.
pub open spec fn pending_after_push(pending: Seq<Task>, task: Task) -> Seq<Task> {
    if has_id(pending, task.id@) {
        pending
    } else {
        pending.push(task)
    }
}

impl QueueAggregate {
    /// Whether the queue may start another download now.
    pub open spec fn schedulable(self) -> bool {
        self.run_status is Running && self.current_task is Unassigned
    }

    pub fn from_parts(
        tasks: QueueTasks,
        current_task: QueueCurrentTask,
        run_status: QueueRunStatus,
        pending_history: QueuePendingHistory,
        retry_policy: RetryPolicy,
    ) -> (r: QueueAggregate)
        ensures
            r == (QueueAggregate { tasks, current_task, run_status, pending_history, retry_policy }),
    {
        QueueAggregate { tasks, current_task, run_status, pending_history, retry_policy }
    }

    /// An empty, paused queue with the default retry policy.
    pub fn new() -> (r: QueueAggregate)
        ensures
            r.tasks@ == Seq::<Task>::empty(),
            r.current_task is Unassigned,
            r.run_status is Paused,
            r.pending_history@ == Seq::<Task>::empty(),
            r.retry_policy == RetryPolicy::default_policy_spec(),
    {
        QueueAggregate {
            tasks: QueueTasks::empty(),
            current_task: QueueCurrentTask::Unassigned,
            run_status: QueueRunStatus::Paused,
            pending_history: QueuePendingHistory::empty(),
            retry_policy: RetryPolicy::default_policy(),
        }
    }

    /// Appends `task`; asks for a download to be scheduled when the queue runs
    /// and nothing is being downloaded.
    pub fn add_task(&mut self, task: Task) -> (r: AddTaskOutcome)
        ensures
            final(self).tasks@ == old(self).tasks@.push(task),
            final(self).current_task == old(self).current_task,
            final(self).run_status == old(self).run_status,
            final(self).pending_history == old(self).pending_history,
            final(self).retry_policy == old(self).retry_policy,
            (r is ScheduleRequested) == old(self).schedulable(),
    {
        self.tasks.push(task);
        if self.can_schedule_next() {
            AddTaskOutcome::ScheduleRequested
        } else {
            AddTaskOutcome::AddedWithoutScheduling
        }
    }

    pub fn can_schedule_next(&self) -> (r: bool)
        ensures
            r == self.schedulable(),
    {
        self.is_running() && !self.has_current_task()
    }

    pub fn has_live_work(&self) -> (r: bool)
        ensures
            r == any_live(self.tasks@),
    {
        self.tasks.has_live_work()
    }

    /// Pauses a running queue that has nothing left to do.
    pub fn finish_run_if_idle(&mut self) -> (r: FinishRunOutcome)
        ensures
            ({
                let idle = old(self).run_status is Running && !any_live(old(self).tasks@)
                    && old(self).current_task is Unassigned;
                &&& (r is Finished) == idle
                &&& *final(self) == if idle {
                    QueueAggregate { run_status: QueueRunStatus::Paused, ..*old(self) }
                } else {
                    *old(self)
                }
            }),
    {
        if self.is_running() && !self.has_live_work() && !self.has_current_task() {
            self.set_run_status(QueueRunStatus::Paused);
            return FinishRunOutcome::Finished;
        }
        FinishRunOutcome::StillActive
    }

    /// Starts the first waiting task when the queue runs and nothing is being
    /// downloaded.
    pub fn schedule_next(&mut self) -> (r: ScheduleNextTaskOutcome)
        ensures
            match r {
                ScheduleNextTaskOutcome::Scheduled(t) => old(self).schedulable() && exists|i: int|
                    first_waiting(old(self).tasks@, i) && t == with_status(
                        old(self).tasks@[i],
                        TaskStatus::Downloading,
                    ) && final(self).tasks@ == old(self).tasks@.update(i, t)
                        && final(self).current_task == QueueCurrentTask::Assigned(t.id),
                ScheduleNextTaskOutcome::NoTaskReady => (!old(self).schedulable() || forall|j: int|
                    0 <= j < old(self).tasks@.len() ==> !(#[trigger] old(self).tasks@[j].status is Waiting))
                    && final(self).tasks@ == old(self).tasks@ && final(self).current_task == old(
                    self,
                ).current_task,
            },
            final(self).run_status == old(self).run_status,
            final(self).pending_history == old(self).pending_history,
            final(self).retry_policy == old(self).retry_policy,
    {
        if !self.can_schedule_next() {
            return ScheduleNextTaskOutcome::NoTaskReady;
        }
        let scheduled = match self.tasks.schedule_next_download() {
            Some(t) => t,
            None => return ScheduleNextTaskOutcome::NoTaskReady,
        };
        self.assign_current_task(scheduled.id.clone());
        ScheduleNextTaskOutcome::Scheduled(scheduled)
    }

    pub fn remove_task(&mut self, id: &str) -> (r: RemoveTaskResult)
        ensures
            match position_of(old(self).tasks@, id@) {
                None => r is Missing && final(self).tasks@ == old(self).tasks@,
                Some(p) => if old(self).tasks@[p].status.removable() {
                    r is Removed && final(self).tasks@ == old(self).tasks@.remove(p)
                } else {
                    r == (RemoveTaskResult::InvalidStatus { status: old(self).tasks@[p].status })
                        && final(self).tasks@ == old(self).tasks@
                },
            },
            final(self).current_task == old(self).current_task,
            final(self).run_status == old(self).run_status,
            final(self).pending_history == old(self).pending_history,
            final(self).retry_policy == old(self).retry_policy,
    {
        self.tasks.remove_task(id)
    }

    pub fn retry_task(&mut self, id: &str) -> (r: RetryTaskResult)
        ensures
            match position_of(old(self).tasks@, id@) {
                None => r is Missing && final(self).tasks@ == old(self).tasks@,
                Some(p) => if old(self).tasks@[p].status is Failed || old(self).tasks@[p].status is Cancelled {
                    let t = Task {
                        status: TaskStatus::Waiting,
                        error_message: None,
                        ..old(self).tasks@[p]
                    };
                    r == RetryTaskResult::Retried(t) && final(self).tasks@ == old(self).tasks@.update(p, t)
                } else {
                    r == (RetryTaskResult::InvalidStatus { status: old(self).tasks@[p].status })
                        && final(self).tasks@ == old(self).tasks@
                },
            },
            final(self).current_task == old(self).current_task,
            final(self).run_status == old(self).run_status,
            final(self).pending_history == old(self).pending_history,
            final(self).retry_policy == old(self).retry_policy,
    {
        self.tasks.retry_task(id)
    }

    /// Cancels the download of task `id` and releases it as the current task.
    pub fn stop_task(&mut self, id: &str) -> (r: StopTaskResult)
        ensures
            match position_of(old(self).tasks@, id@) {
                None => r is Missing && final(self).tasks@ == old(self).tasks@
                    && final(self).current_task == old(self).current_task,
                Some(p) => if old(self).tasks@[p].status is Downloading {
                    exists|m: String|
                        #![trigger m@]
                        m@ == stopped_by_user_message() && {
                            let t = Task {
                                status: TaskStatus::Cancelled,
                                error_message: Some(m),
                                ..old(self).tasks@[p]
                            };
                            r == StopTaskResult::Stopped(t) && final(self).tasks@ == old(self).tasks@.update(p, t)
                        }
                    && final(self).current_task == current_after_release(old(self).current_task, id@)
                } else {
                    r == (StopTaskResult::NotDownloading { status: old(self).tasks@[p].status })
                        && final(self).tasks@ == old(self).tasks@
                        && final(self).current_task == old(self).current_task
                },
            },
            final(self).run_status == old(self).run_status,
            final(self).pending_history == old(self).pending_history,
            final(self).retry_policy == old(self).retry_policy,
    {
        let result = self.tasks.stop_task(id);
        if matches!(result, StopTaskResult::Stopped(_)) {
            self.clear_current_task_if_matches(id);
        }
        result
    }

    pub fn update_save_name(&mut self, id: &str, save_name: Option<String>) -> (r:
        UpdateSaveNameResult)
        ensures
            match position_of(old(self).tasks@, id@) {
                None => r is Missing && final(self).tasks@ == old(self).tasks@,
                Some(p) => if old(self).tasks@[p].status is Waiting {
                    r is Updated && final(self).tasks@.len() == old(self).tasks@.len()
                        && final(self).tasks@[p] == Task {
                        save_name: final(self).tasks@[p].save_name,
                        ..old(self).tasks@[p]
                    } && opt_view(final(self).tasks@[p].save_name) == normalized_save_name(
                        opt_view(save_name),
                    ) && final(self).tasks@ == old(self).tasks@.update(p, final(self).tasks@[p])
                } else {
                    r == (UpdateSaveNameResult::NotWaiting { status: old(self).tasks@[p].status })
                        && final(self).tasks@ == old(self).tasks@
                },
            },
            final(self).current_task == old(self).current_task,
            final(self).run_status == old(self).run_status,
            final(self).pending_history == old(self).pending_history,
            final(self).retry_policy == old(self).retry_policy,
    {
        self.tasks.update_save_name(id, save_name)
    }

    pub fn reorder_waiting_tasks(&mut self, task_ids: Vec<String>)
        ensures
            final(self).tasks@ == reordered(old(self).tasks@, task_ids@),
            final(self).current_task == old(self).current_task,
            final(self).run_status == old(self).run_status,
            final(self).pending_history == old(self).pending_history,
            final(self).retry_policy == old(self).retry_policy,
    {
        self.tasks.reorder_waiting_tasks(task_ids);
    }

    /// Records the failed download of task `id`: another try while the retry
    /// policy allows it, a final failure with `error_message` otherwise. The task
    /// stops being current either way, and so does a stale current id.
    pub fn prepare_task_failure(&mut self, id: &str, error_message: &str) -> (r:
        PrepareTaskFailureOutcome)
        ensures
            match position_of(old(self).tasks@, id@) {
                None => r is Ignored && final(self).tasks@ == old(self).tasks@,
                Some(p) => match RetryPolicy::default_policy_spec().decision(
                    old(self).tasks@[p].retry_count,
                ) {
                    RetryDecision::Retry { next_retry_count } => r == PrepareTaskFailureOutcome::Transition(
                        TaskFailureTransition::RetryScheduled,
                    ) && final(self).tasks@ == old(self).tasks@.update(
                        p,
                        Task {
                            retry_count: next_retry_count,
                            status: TaskStatus::Waiting,
                            error_message: None,
                            ..old(self).tasks@[p]
                        },
                    ),
                    RetryDecision::Terminal => r == PrepareTaskFailureOutcome::Transition(
                        TaskFailureTransition::Terminal,
                    ) && final(self).tasks@.len() == old(self).tasks@.len()
                        && final(self).tasks@[p] == Task {
                        status: TaskStatus::Failed,
                        error_message: final(self).tasks@[p].error_message,
                        ..old(self).tasks@[p]
                    } && opt_view(final(self).tasks@[p].error_message) == Some(error_message@)
                        && final(self).tasks@ == old(self).tasks@.update(p, final(self).tasks@[p]),
                },
            },
            final(self).current_task == current_after_release(old(self).current_task, id@),
            final(self).run_status == old(self).run_status,
            final(self).pending_history == old(self).pending_history,
            final(self).retry_policy == old(self).retry_policy,
    {
        let transition = self.tasks.prepare_task_failure(id, error_message);
        self.clear_current_task_if_matches(id);
        transition
    }

    /// Moves the completed task `id` from the queue to the pending history.
    pub fn stage_task_completion(&mut self, id: &str) -> (r: StageTaskCompletionOutcome)
        ensures
            match position_of(old(self).tasks@, id@) {
                None => r is Missing && final(self).tasks@ == old(self).tasks@
                    && final(self).current_task == old(self).current_task
                    && final(self).pending_history == old(self).pending_history
                    && final(self).run_status == old(self).run_status
                    && final(self).retry_policy == old(self).retry_policy,
                Some(p) => {
                    let t = Task {
                        status: TaskStatus::Completed,
                        error_message: None,
                        ..old(self).tasks@[p]
                    };
                    &&& r == StageTaskCompletionOutcome::Staged(t)
                    &&& final(self).tasks@ == old(self).tasks@.remove(p)
                    &&& final(self).current_task == current_after_release(old(self).current_task, id@)
                    &&& final(self).pending_history@ == pending_after_push(old(self).pending_history@, t)
                    &&& final(self).run_status == old(self).run_status
                    &&& final(self).retry_policy == old(self).retry_policy
                },
            },
    {
        match self.tasks.stage_task_completion(id) {
            StageTaskCompletionOutcome::Staged(task) => {
                self.clear_current_task_if_matches(id);
                self.push_pending_history_task(task.duplicate());
                StageTaskCompletionOutcome::Staged(task)
            },
            StageTaskCompletionOutcome::Missing => StageTaskCompletionOutcome::Missing,
        }
    }

    /// Moves the failed task `id` from the queue to the pending history.
    pub fn stage_terminal_history_task(&mut self, id: &str) -> (r: StageTerminalHistoryResult)
        ensures
            match position_of(old(self).tasks@, id@) {
                None => r is Missing && final(self).tasks@ == old(self).tasks@
                    && final(self).current_task == old(self).current_task
                    && final(self).pending_history == old(self).pending_history
                    && final(self).run_status == old(self).run_status
                    && final(self).retry_policy == old(self).retry_policy,
                Some(p) => if old(self).tasks@[p].status is Failed {
                    &&& r == StageTerminalHistoryResult::Staged(old(self).tasks@[p])
                    &&& final(self).tasks@ == old(self).tasks@.remove(p)
                    &&& final(self).current_task == current_after_release(old(self).current_task, id@)
                    &&& final(self).pending_history@ == pending_after_push(
                        old(self).pending_history@,
                        old(self).tasks@[p],
                    )
                    &&& final(self).run_status == old(self).run_status
                    &&& final(self).retry_policy == old(self).retry_policy
                } else {
                    r == (StageTerminalHistoryResult::InvalidStatus {
                        status: old(self).tasks@[p].status,
                    }) && final(self).tasks@ == old(self).tasks@
                        && final(self).current_task == old(self).current_task
                        && final(self).pending_history == old(self).pending_history
                        && final(self).run_status == old(self).run_status
                        && final(self).retry_policy == old(self).retry_policy
                },
            },
    {
        match self.tasks.stage_terminal_history_task(id) {
            StageTerminalHistoryResult::Staged(task) => {
                self.clear_current_task_if_matches(id);
                self.push_pending_history_task(task.duplicate());
                StageTerminalHistoryResult::Staged(task)
            },
            StageTerminalHistoryResult::Missing => StageTerminalHistoryResult::Missing,
            StageTerminalHistoryResult::InvalidStatus { status } => {
                StageTerminalHistoryResult::InvalidStatus { status }
            },
        }
    }

    pub fn push_pending_history_task(&mut self, task: Task)
        ensures
            final(self).pending_history@ == pending_after_push(old(self).pending_history@, task),
            final(self).tasks == old(self).tasks,
            final(self).current_task == old(self).current_task,
            final(self).run_status == old(self).run_status,
            final(self).retry_policy == old(self).retry_policy,
    {
        self.pending_history.push_unique(task);
    }

    pub fn pending_history_tasks(&self) -> (r: &[Task])
        ensures
            r@ == self.pending_history@,
    {
        self.pending_history.tasks()
    }

    pub fn pending_history_snapshot(&self) -> (r: Vec<Task>)
        ensures
            r@ == self.pending_history@,
    {
        self.pending_history.snapshot()
    }

    pub fn clear_pending_history_task(&mut self, id: &str) -> (r: ClearPendingHistoryOutcome)
        ensures
            (r is Cleared) == has_id(old(self).pending_history@, id@),
            final(self).pending_history@ == old(self).pending_history@.filter(id_differs(id@)),
            final(self).tasks == old(self).tasks,
            final(self).current_task == old(self).current_task,
            final(self).run_status == old(self).run_status,
            final(self).retry_policy == old(self).retry_policy,
    {
        self.pending_history.clear_task(id)
    }

    pub fn set_run_status(&mut self, status: QueueRunStatus)
        ensures
            *final(self) == (QueueAggregate { run_status: status, ..*old(self) }),
    {
        self.run_status = status;
    }

    pub fn is_running(&self) -> (r: bool)
        ensures
            r == (self.run_status is Running),
    {
        self.run_status.is_running()
    }

    pub fn tasks(&self) -> (r: &[Task])
        ensures
            r@ == self.tasks@,
    {
        self.tasks.as_slice()
    }

    pub fn current_task_id(&self) -> (r: Option<&str>)
        ensures
            match r {
                Some(s) => self.current_task.id_view() == Some(s@),
                None => self.current_task.id_view() is None,
            },
    {
        self.current_task.task_id()
    }

    pub fn has_current_task(&self) -> (r: bool)
        ensures
            r == (self.current_task is Assigned),
    {
        self.current_task.is_assigned()
    }

    pub fn is_current_task(&self, id: &str) -> (r: bool)
        ensures
            r == (self.current_task.id_view() == Some(id@)),
    {
        match self.current_task_id() {
            Some(current) => str_eq(current, id),
            None => false,
        }
    }

    pub fn assign_current_task(&mut self, id: String)
        ensures
            *final(self) == (QueueAggregate {
                current_task: QueueCurrentTask::Assigned(id),
                ..*old(self)
            }),
    {
        self.current_task = QueueCurrentTask::Assigned(id);
    }

    pub fn clear_current_task(&mut self)
        ensures
            *final(self) == (QueueAggregate {
                current_task: QueueCurrentTask::Unassigned,
                ..*old(self)
            }),
    {
        self.current_task = QueueCurrentTask::Unassigned;
    }

    pub fn clear_current_task_if_matches(&mut self, id: &str)
        ensures
            *final(self) == (QueueAggregate {
                current_task: current_after_release(old(self).current_task, id@),
                ..*old(self)
            }),
    {
        if self.is_current_task(id) {
            self.clear_current_task();
        }
    }

    /// Pauses the queue, forgets the current task and puts downloading tasks back
    /// to waiting, since no download outlives the application.
    pub fn prepare_for_exit(&mut self)
        ensures
            final(self).run_status is Paused,
            final(self).current_task is Unassigned,
            final(self).tasks@ == reset_downloading(old(self).tasks@),
            final(self).pending_history == old(self).pending_history,
            final(self).retry_policy == old(self).retry_policy,
    {
        self.set_run_status(QueueRunStatus::Paused);
        self.clear_current_task();
        self.tasks.reset_downloading_tasks_for_exit();
    }

    /// The state a restarted application resumes from: as after
    /// [`QueueAggregate::prepare_for_exit`], with only completed and failed tasks
    /// left pending for history.
    pub fn normalize_after_restart(&mut self)
        ensures
            final(self).run_status is Paused,
            final(self).current_task is Unassigned,
            final(self).tasks@ == reset_downloading(old(self).tasks@),
            final(self).pending_history@ == old(self).pending_history@.filter(terminal_pred()),
            final(self).retry_policy == old(self).retry_policy,
    {
        self.prepare_for_exit();
        self.pending_history.retain_terminal_tasks();
    }

    /// Pauses the queue after a failure could not be saved, releasing task `id`
    /// and marking it failed with `error_message` when it is queued.
    pub fn pause_after_failure_persistence_error(&mut self, id: &str, error_message: &str)
        ensures
            final(self).run_status is Paused,
            final(self).current_task == current_after_release(old(self).current_task, id@),
            match position_of(old(self).tasks@, id@) {
                None => final(self).tasks@ == old(self).tasks@,
                Some(p) => final(self).tasks@.len() == old(self).tasks@.len()
                    && final(self).tasks@[p] == Task {
                    status: TaskStatus::Failed,
                    error_message: final(self).tasks@[p].error_message,
                    ..old(self).tasks@[p]
                } && opt_view(final(self).tasks@[p].error_message) == Some(error_message@)
                    && final(self).tasks@ == old(self).tasks@.update(p, final(self).tasks@[p]),
            },
            final(self).pending_history == old(self).pending_history,
            final(self).retry_policy == old(self).retry_policy,
    {
        self.set_run_status(QueueRunStatus::Paused);
        self.clear_current_task_if_matches(id);
        self.tasks.pause_after_failure_persistence_error(id, error_message);
    }
}

impl Default for QueueAggregate {
    fn default() -> (r: QueueAggregate)
        ensures
            r.tasks@ == Seq::<Task>::empty(),
            r.current_task is Unassigned,
            r.run_status is Paused,
            r.pending_history@ == Seq::<Task>::empty(),
            r.retry_policy == RetryPolicy::default_policy_spec(),
    {
        QueueAggregate::new()
    }
}

} // verus!
