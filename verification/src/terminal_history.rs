//! Writing finished tasks to the history: a finished task is first staged as
//! pending in the queue, then written with a history step and cleared from the
//! pending list, so that a task whose write fails is written again later.
use vstd::prelude::*;
use crate::app_error::AppError;
use crate::history::{terminal_status_of, HistoryStatus};
use crate::queue::{
    current_after_release, id_differs, pending_after_push, position_of, terminal_pred, QueueAggregate, StageTaskCompletionOutcome,
    StageTerminalHistoryResult,
};
use crate::task::{Task, TaskStatus};

verus! {

/// The history status of a finished task; none for a task that has not
/// finished.
pub fn history_status_from_task_snapshot(task: &Task) -> (r: Option<HistoryStatus>)
    ensures
        r == terminal_status_of(task.status),
{
    HistoryStatus::from_task_status(&task.status)
}

/// What recording a finished task came to.
pub enum TerminalHistoryRecordOutcome {
    /// The task was written to the history and is no longer pending.
    Recorded(Task),
    /// The queue did not hold the task as finished, and nothing was written.
    Ignored,
}

/// Writes a pending task to the history with `append` and, once written,
/// clears it from the pending list.
pub fn flush_pending_history_task<A>(aggregate: &mut QueueAggregate, task: &Task, append: A) -> (r:
    Result<(), AppError>) where A: FnOnce(&Task) -> Result<(), AppError>,
    requires
        call_requires(append, (task,)),
    ensures
        final(aggregate).tasks == old(aggregate).tasks,
        final(aggregate).current_task == old(aggregate).current_task,
        final(aggregate).run_status == old(aggregate).run_status,
        final(aggregate).retry_policy == old(aggregate).retry_policy,
        match r {
            Ok(_) => call_ensures(append, (task,), Ok::<(), AppError>(()))
                && final(aggregate).pending_history@ == old(aggregate).pending_history@.filter(
                id_differs(task.id@),
            ),
            Err(e) => call_ensures(append, (task,), Err::<(), AppError>(e))
                && final(aggregate).pending_history@ == old(aggregate).pending_history@,
        },
{
    match append(task) {
        Ok(u) => {
            assert(u == ());
        },
        Err(e) => {
            return Err(e);
        },
    }
    aggregate.clear_pending_history_task(task.id.as_str());
    Ok(())
}

/// Records the completed task `task_id`: it leaves the queue for the pending
/// history, then is written with `append`. A task the queue does not hold is
/// ignored.
pub fn handle_completed_task_history<A>(aggregate: &mut QueueAggregate, task_id: &str, append: A) -> (r:
    Result<TerminalHistoryRecordOutcome, AppError>) where A: FnOnce(&Task) -> Result<(), AppError>,
    requires
        forall|t: &Task| call_requires(append, (t,)),
    ensures
        final(aggregate).run_status == old(aggregate).run_status,
        final(aggregate).retry_policy == old(aggregate).retry_policy,
        final(aggregate).current_task == if position_of(old(aggregate).tasks@, task_id@) is Some {
            current_after_release(old(aggregate).current_task, task_id@)
        } else {
            old(aggregate).current_task
        },
        position_of(old(aggregate).tasks@, task_id@) is None ==> (r matches Ok(
            TerminalHistoryRecordOutcome::Ignored,
        )) && final(aggregate).pending_history@ == old(aggregate).pending_history@,
        position_of(old(aggregate).tasks@, task_id@) is Some ==> {
            let p = position_of(old(aggregate).tasks@, task_id@)->0;
            let t = Task { status: TaskStatus::Completed, error_message: None, ..old(aggregate).tasks@[p] };
            &&& final(aggregate).tasks@ == old(aggregate).tasks@.remove(p)
            &&& match r {
                Ok(o) => (o matches TerminalHistoryRecordOutcome::Recorded(rt) && rt == t) && call_ensures(
                    append,
                    (&t,),
                    Ok::<(), AppError>(()),
                ) && final(aggregate).pending_history@ == pending_after_push(
                    old(aggregate).pending_history@,
                    t,
                ).filter(id_differs(t.id@)),
                Err(e) => call_ensures(append, (&t,), Err::<(), AppError>(e))
                    && final(aggregate).pending_history@ == pending_after_push(
                    old(aggregate).pending_history@,
                    t,
                ),
            }
        },
{
    match aggregate.stage_task_completion(task_id) {
        StageTaskCompletionOutcome::Staged(task) => {
            match flush_pending_history_task(aggregate, &task, append) {
                Ok(()) => Ok(TerminalHistoryRecordOutcome::Recorded(task)),
                Err(e) => Err(e),
            }
        },
        StageTaskCompletionOutcome::Missing => Ok(TerminalHistoryRecordOutcome::Ignored),
    }
}

/// Records the task `task_id`, which failed for good: it leaves the queue for
/// the pending history, then is written with `append`. A task the queue does
/// not hold as failed is ignored.
pub fn handle_terminal_failure_task_history<A>(aggregate: &mut QueueAggregate, task_id: &str, append: A) -> (r:
    Result<TerminalHistoryRecordOutcome, AppError>) where A: FnOnce(&Task) -> Result<(), AppError>,
    requires
        forall|t: &Task| call_requires(append, (t,)),
    ensures
        final(aggregate).run_status == old(aggregate).run_status,
        final(aggregate).retry_policy == old(aggregate).retry_policy,
        final(aggregate).current_task == if position_of(old(aggregate).tasks@, task_id@) is Some
            && old(aggregate).tasks@[position_of(old(aggregate).tasks@, task_id@)->0].status is Failed {
            current_after_release(old(aggregate).current_task, task_id@)
        } else {
            old(aggregate).current_task
        },
        (position_of(old(aggregate).tasks@, task_id@) is None || !(old(aggregate).tasks@[position_of(
            old(aggregate).tasks@,
            task_id@,
        )->0].status is Failed)) ==> (r matches Ok(TerminalHistoryRecordOutcome::Ignored))
            && final(aggregate).pending_history@ == old(aggregate).pending_history@
            && final(aggregate).tasks@ == old(aggregate).tasks@,
        (position_of(old(aggregate).tasks@, task_id@) is Some && old(aggregate).tasks@[position_of(
            old(aggregate).tasks@,
            task_id@,
        )->0].status is Failed) ==> {
            let p = position_of(old(aggregate).tasks@, task_id@)->0;
            let t = old(aggregate).tasks@[p];
            &&& final(aggregate).tasks@ == old(aggregate).tasks@.remove(p)
            &&& match r {
                Ok(o) => (o matches TerminalHistoryRecordOutcome::Recorded(rt) && rt == t) && call_ensures(
                    append,
                    (&t,),
                    Ok::<(), AppError>(()),
                ) && final(aggregate).pending_history@ == pending_after_push(
                    old(aggregate).pending_history@,
                    t,
                ).filter(id_differs(t.id@)),
                Err(e) => call_ensures(append, (&t,), Err::<(), AppError>(e))
                    && final(aggregate).pending_history@ == pending_after_push(
                    old(aggregate).pending_history@,
                    t,
                ),
            }
        },
{
    match aggregate.stage_terminal_history_task(task_id) {
        StageTerminalHistoryResult::Staged(task) => {
            match flush_pending_history_task(aggregate, &task, append) {
                Ok(()) => Ok(TerminalHistoryRecordOutcome::Recorded(task)),
                Err(e) => Err(e),
            }
        },
        _ => Ok(TerminalHistoryRecordOutcome::Ignored),
    }
}

/// A task written to the history by a flush, with its status.
pub struct FlushedHistoryTask {
    pub status: HistoryStatus,
    pub task: Task,
}

/// The tasks of a list of flushed tasks, in order.
pub open spec fn flushed_tasks(v: Seq<FlushedHistoryTask>) -> Seq<Task> {
    v.map_values(|f: FlushedHistoryTask| f.task)
}

/// Writes every pending task to the history with `append`, in order,
/// clearing each once written; the first failure stops the flush and is
/// returned. The result lists the written tasks that have a history status.
pub fn flush_pending_history_tasks<A>(aggregate: &mut QueueAggregate, append: A) -> (r: Result<
    Vec<FlushedHistoryTask>,
    AppError,
>) where A: Fn(&Task) -> Result<(), AppError>,
    requires
        forall|t: &Task| call_requires(append, (t,)),
    ensures
        final(aggregate).tasks == old(aggregate).tasks,
        final(aggregate).current_task == old(aggregate).current_task,
        final(aggregate).run_status == old(aggregate).run_status,
        final(aggregate).retry_policy == old(aggregate).retry_policy,
        r matches Ok(v) ==> {
            &&& flushed_tasks(v@) == old(aggregate).pending_history@.filter(terminal_pred())
            &&& forall|i: int|
                0 <= i < v@.len() ==> Some(#[trigger] v@[i].status) == terminal_status_of(v@[i].task.status)
            &&& forall|i: int|
                0 <= i < old(aggregate).pending_history@.len() ==> call_ensures(
                    append,
                    (&#[trigger] old(aggregate).pending_history@[i],),
                    Ok::<(), AppError>(()),
                )
            &&& final(aggregate).pending_history@.len() == 0
        },
        r matches Err(e) ==> exists|i: int|
            0 <= i < old(aggregate).pending_history@.len() && call_ensures(
                append,
                (&#[trigger] old(aggregate).pending_history@[i],),
                Err::<(), AppError>(e),
            ),
{
    let pending = aggregate.pending_history_snapshot();
    let ghost all = pending@;
    let mut flushed: Vec<FlushedHistoryTask> = Vec::new();
    let mut i: usize = 0;
    while i < pending.len()
        invariant
            i <= pending@.len(),
            pending@ == all,
            all == old(aggregate).pending_history@,
            aggregate.tasks == old(aggregate).tasks,
            aggregate.current_task == old(aggregate).current_task,
            aggregate.run_status == old(aggregate).run_status,
            aggregate.retry_policy == old(aggregate).retry_policy,
            forall|t: &Task| call_requires(append, (t,)),
            flushed_tasks(flushed@) == all.take(i as int).filter(terminal_pred()),
            forall|k: int|
                0 <= k < flushed@.len() ==> Some(#[trigger] flushed@[k].status) == terminal_status_of(
                    flushed@[k].task.status,
                ),
            forall|k: int|
                0 <= k < i ==> call_ensures(append, (&#[trigger] all[k],), Ok::<(), AppError>(())),
            forall|x: Task| #[trigger] aggregate.pending_history@.contains(x) ==> all.contains(x),
            forall|k: int, x: Task|
                0 <= k < i && #[trigger] aggregate.pending_history@.contains(x) ==> x.id@ != (
                #[trigger] all[k]).id@,
        decreases pending@.len() - i,
    {
        let ghost before = aggregate.pending_history@;
        proof {
            reveal(Seq::filter);
            assert(all.take(i + 1).drop_last() =~= all.take(i as int));
        }
        match flush_pending_history_task(aggregate, &pending[i], &append) {
            Ok(()) => {},
            Err(e) => {
                return Err(e);
            },
        }
        proof {
            let after = aggregate.pending_history@;
            assert(after == before.filter(id_differs(all[i as int].id@)));
            assert forall|x: Task| #[trigger] after.contains(x) implies before.contains(x)
                && x.id@ != all[i as int].id@ by {
                before.lemma_filter_contains_rev(id_differs(all[i as int].id@), x);
                let m = choose|m: int| 0 <= m < after.len() && after[m] == x;
                before.lemma_filter_pred(id_differs(all[i as int].id@), m);
            }
        }
        match history_status_from_task_snapshot(&pending[i]) {
            Some(status) => {
                let ghost prev = flushed@;
                flushed.push(FlushedHistoryTask { status, task: pending[i].duplicate() });
                proof {
                    assert(flushed@.drop_last() == prev);
                    assert(flushed_tasks(flushed@) =~= flushed_tasks(prev).push(all[i as int]));
                }
            },
            None => {},
        }
        i = i + 1;
    }
    proof {
        assert(all.take(all.len() as int) =~= all);
        let rest = aggregate.pending_history@;
        if rest.len() > 0 {
            assert(rest.contains(rest[0]));
            let k = choose|k: int| 0 <= k < all.len() && all[k] == rest[0];
            assert(all[k].id@ != all[k].id@);
        }
    }
    Ok(flushed)
}

} // verus!
