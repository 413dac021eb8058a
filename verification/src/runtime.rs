//! The decisions the application takes around a download: recording a
//! finished task, handling a failed start, ending an idle run, applying new
//! settings and starting the queue. The outside work (saving the queue,
//! writing history, running system commands) is handed in as steps.
use vstd::prelude::*;
use crate::app_error::AppError;
use crate::cli_output::CliOutputStore;
use crate::models::{is_new_task, AppSettings, QueueState, Task, TaskStatus};
use crate::queue_manager::{
    completed_snapshot, current_without, failed_for_good, has_live, persist_outcome,
    progress_cleared, QueueManager, TaskFailureTransition, MAX_RETRIES,
};
use crate::settings_store::{normalized_settings_match, SettingsStore};
use crate::shutdown::{may_start, ShutdownManager, ShutdownState, SHUTDOWN_SECONDS};
use crate::models::task_position;
use crate::text::{owned, push_str};

verus! {

broadcast use vstd::string::group_string_axioms;

/// Records a completed task: its snapshot, completed with its output at
/// `output_path`, is written to the history with `append`, then the task
/// leaves the queue, which is saved with `persist`. A task no longer queued
/// is ignored. The queue changes even when writing the history fails; an
/// error in saving the queue is reported before one in writing the history.
pub fn record_completed_task<A, P>(
    manager: &mut QueueManager,
    task_id: &str,
    output_path: &str,
    append: A,
    persist: P,
) -> (r: Result<Option<Task>, AppError>) where
    A: FnOnce(&Task) -> Result<(), AppError>,
    P: FnOnce(&QueueState) -> Result<(), String>,

    requires
        forall|t: &Task| call_requires(append, (t,)),
        forall|s: &QueueState| call_requires(persist, (s,)),
    ensures
        final(manager).running() == old(manager).running(),
        final(manager).closing() == old(manager).closing(),
        match task_position(old(manager).tasks(), task_id@) {
            None => r == Ok::<Option<Task>, AppError>(None) && final(manager).tasks() == old(
                manager,
            ).tasks() && final(manager).current() == old(manager).current(),
            Some(p) => {
                &&& final(manager).tasks() == old(manager).tasks().remove(p)
                &&& final(manager).current() == current_without(old(manager).current(), task_id@)
                &&& exists|snap: Task, ar: Result<(), AppError>, fr: Result<bool, AppError>|
                    {
                        &&& completed_snapshot(old(manager).tasks()[p], snap, output_path@)
                        &&& call_ensures(append, (&snap,), ar)
                        &&& persist_outcome(persist, final(manager).saved(), fr)
                        &&& r == match fr {
                            Err(e) => Err(e),
                            Ok(_) => match ar {
                                Ok(_) => Ok(Some(snap)),
                                Err(e) => Err(e),
                            },
                        }
                    }
            },
        },
{
    let task = match manager.snapshot_task_completion(task_id, output_path) {
        Some(t) => t,
        None => {
            return Ok(None);
        },
    };
    let append_result = append(&task);
    let finalized = manager.finalize_task_completion(task_id, persist);
    let ghost ar = append_result;
    let ghost fr = finalized;
    let r = match finalized {
        Err(e) => Err(e),
        Ok(_) => match append_result {
            Ok(_) => Ok(Some(task)),
            Err(e) => Err(e),
        },
    };
    proof {
        let p = task_position(old(manager).tasks(), task_id@).unwrap();
        assert(completed_snapshot(old(manager).tasks()[p], task, output_path@));
    }
    r
}

/// Records a task that failed for good: it is written to the history with
/// `append`, then it leaves the queue, which is saved with `persist`. The
/// queue changes even when writing the history fails; an error in saving the
/// queue is reported before one in writing the history.
pub fn record_terminal_failure_task<A, P>(
    manager: &mut QueueManager,
    task_id: &str,
    task: Task,
    append: A,
    persist: P,
) -> (r: Result<Task, AppError>) where
    A: FnOnce(&Task) -> Result<(), AppError>,
    P: FnOnce(&QueueState) -> Result<(), String>,

    requires
        call_requires(append, (&task,)),
        forall|s: &QueueState| call_requires(persist, (s,)),
    ensures
        final(manager).running() == old(manager).running(),
        final(manager).closing() == old(manager).closing(),
        final(manager).tasks() == match task_position(old(manager).tasks(), task_id@) {
            None => old(manager).tasks(),
            Some(p) => old(manager).tasks().remove(p),
        },
        final(manager).current() == current_without(old(manager).current(), task_id@),
        exists|ar: Result<(), AppError>, fr: Result<bool, AppError>|
            {
                &&& call_ensures(append, (&task,), ar)
                &&& persist_outcome(persist, final(manager).saved(), fr)
                &&& r == match fr {
                    Err(e) => Err(e),
                    Ok(_) => match ar {
                        Ok(_) => Ok(task),
                        Err(e) => Err(e),
                    },
                }
            },
{
    let append_result = append(&task);
    let finalized = manager.finalize_terminal_failure(task_id, persist);
    match finalized {
        Err(e) => Err(e),
        Ok(_) => match append_result {
            Ok(_) => Ok(task),
            Err(e) => Err(e),
        },
    }
}

/// Handles a task whose download could not be started, as a failure with
/// `error_message`: with retries left it waits again and the result is
/// `None`; when it has failed for good it is recorded in the history and
/// leaves the queue, and the result holds it as recorded.
pub fn handle_start_failure<A, P>(
    manager: &mut QueueManager,
    task_id: &str,
    error_message: &str,
    append: A,
    persist: P,
) -> (r: Result<Option<Task>, AppError>) where
    A: FnOnce(&Task) -> Result<(), AppError>,
    P: FnOnce(&QueueState) -> Result<(), String> + Copy,

    requires
        forall|t: &Task| call_requires(append, (t,)),
        forall|s: &QueueState| call_requires(persist, (s,)),
    ensures
        final(manager).running() == old(manager).running(),
        final(manager).closing() == old(manager).closing(),
        old(manager).closing() ==> r == Ok::<Option<Task>, AppError>(None) && final(manager).tasks()
            == old(manager).tasks() && final(manager).current() == old(manager).current(),
        !old(manager).closing() ==> match task_position(old(manager).tasks(), task_id@) {
            None => {
                &&& final(manager).tasks() == old(manager).tasks()
                &&& final(manager).current() == current_without(old(manager).current(), task_id@)
                &&& match r {
                    Ok(v) => v is None && persist_outcome(persist, final(manager).saved(), Ok::<(), AppError>(())),
                    Err(e) => persist_outcome(persist, final(manager).saved(), Err::<(), AppError>(e)),
                }
            },
            Some(p) => {
                let before = old(manager).tasks()[p];
                if before.retry_count < MAX_RETRIES {
                    &&& final(manager).tasks().len() == old(manager).tasks().len()
                    &&& forall|j: int|
                        0 <= j < old(manager).tasks().len() && j != p ==> final(manager).tasks()[j]
                            == old(manager).tasks()[j]
                    &&& progress_cleared(
                        before,
                        final(manager).tasks()[p],
                        TaskStatus::Waiting,
                        (before.retry_count + 1) as u8,
                        None,
                    )
                    &&& final(manager).current() == current_without(old(manager).current(), task_id@)
                    &&& match r {
                        Ok(v) => v is None && persist_outcome(
                            persist,
                            final(manager).saved(),
                            Ok::<(), AppError>(()),
                        ),
                        Err(e) => persist_outcome(persist, final(manager).saved(), Err::<(), AppError>(e)),
                    }
                } else {
                    ||| (r matches Err(e) && final(manager).tasks() == old(manager).tasks()
                        && final(manager).current() == old(manager).current() && persist_outcome(
                        persist,
                        final(manager).saved(),
                        Err::<(), AppError>(e),
                    ))
                    ||| {
                        &&& exists|s: QueueState| call_ensures(persist, (&s,), Ok::<(), String>(()))
                        &&& final(manager).tasks() == old(manager).tasks().remove(p)
                        &&& final(manager).current() == current_without(old(manager).current(), task_id@)
                        &&& exists|t: Task, ar: Result<(), AppError>, fr: Result<bool, AppError>|
                            {
                                &&& failed_for_good(before, t, error_message@)
                                &&& call_ensures(append, (&t,), ar)
                                &&& persist_outcome(persist, final(manager).saved(), fr)
                                &&& r == start_failure_recorded(t, ar, fr)
                            }
                    }
                }
            },
        },
{
    let transition = match manager.prepare_task_failure(task_id, error_message, persist) {
        Ok(t) => t,
        Err(e) => {
            return Err(e);
        },
    };
    match transition {
        Some(TaskFailureTransition::RetryScheduled) => Ok(None),
        Some(TaskFailureTransition::Terminal(task)) => {
            let ghost before = manager.tasks();
            let ghost mid = manager.saved();
            let ghost ended = task;
            proof {
                let p = task_position(old(manager).tasks(), task_id@).unwrap();
                assert(task_position(before, task_id@) == Some(p));
                assert(call_ensures(persist, (&mid,), Ok::<(), String>(())));
            }
            let outcome = record_terminal_failure_task(manager, task_id, task, append, persist);
            let r = match outcome {
                Ok(t) => Ok(Some(t)),
                Err(e) => Err(e),
            };
            proof {
                let (ar, fr) = choose|ar: Result<(), AppError>, fr: Result<bool, AppError>|
                    {
                        &&& call_ensures(append, (&ended,), ar)
                        &&& persist_outcome(persist, manager.saved(), fr)
                        &&& outcome == match fr {
                            Err(e) => Err(e),
                            Ok(_) => match ar {
                                Ok(_) => Ok(ended),
                                Err(e) => Err(e),
                            },
                        }
                    };
                let p = task_position(old(manager).tasks(), task_id@).unwrap();
                assert(failed_for_good(old(manager).tasks()[p], ended, error_message@));
                assert(r == start_failure_recorded(ended, ar, fr));
            }
            r
        },
        None => Ok(None),
    }
}

/// The result of handling a task that failed for good, `t`, given what
/// writing it to the history (`ar`) and saving the queue (`fr`) came to: an
/// error in saving the queue comes before one in writing the history.
pub open spec fn start_failure_recorded(t: Task, ar: Result<(), AppError>, fr: Result<bool, AppError>) -> Result<
    Option<Task>,
    AppError,
> {
    match fr {
        Err(e) => Err(e),
        Ok(_) => match ar {
            Ok(_) => Ok(Some(t)),
            Err(e) => Err(e),
        },
    }
}

/// What handling a task's failure came to.
pub enum FailureSettlement {
    /// The application shuts down; the failure is not handled.
    ShuttingDown,
    /// The task waits for another try, or was not queued.
    Continue,
    /// The task failed for good and was recorded in the history.
    Recorded(Task),
    /// The task failed for good but recording it failed.
    RecordFailed(AppError),
    /// Handling the failure itself failed.
    PrepareFailed(AppError),
}

/// The settlement of a task `t` that failed for good, given what writing it
/// to the history (`ar`) and saving the queue (`fr`) came to: an error in
/// saving the queue comes before one in writing the history.
pub open spec fn failure_recorded(t: Task, ar: Result<(), AppError>, fr: Result<bool, AppError>) -> FailureSettlement {
    match fr {
        Err(e) => FailureSettlement::RecordFailed(e),
        Ok(_) => match ar {
            Ok(_) => FailureSettlement::Recorded(t),
            Err(e) => FailureSettlement::RecordFailed(e),
        },
    }
}

/// Handles the failed download of task `task_id`: its active output line is
/// forgotten; then, unless the application shuts down, a failure for good
/// marks the run as failed, so that no automatic shutdown follows it, and
/// records the task in the history, while a task with retries left waits
/// again.
pub fn settle_task_failure<A, P>(
    manager: &mut QueueManager,
    shutdown: &mut ShutdownManager,
    output: &mut CliOutputStore,
    task_id: &str,
    error_message: &str,
    append: A,
    persist: P,
) -> (r: FailureSettlement) where
    A: FnOnce(&Task) -> Result<(), AppError>,
    P: FnOnce(&QueueState) -> Result<(), String> + Copy,

    requires
        forall|t: &Task| call_requires(append, (t,)),
        forall|s: &QueueState| call_requires(persist, (s,)),
    ensures
        final(output).active_lines() == old(output).active_lines().remove(task_id@),
        final(output).base_path_view() == old(output).base_path_view(),
        final(manager).running() == old(manager).running(),
        final(manager).closing() == old(manager).closing(),
        (r is ShuttingDown) == old(manager).closing(),
        old(manager).closing() ==> final(manager).tasks() == old(manager).tasks() && final(manager).current()
            == old(manager).current() && final(shutdown)@ == old(shutdown)@,
        (r is Recorded || r is RecordFailed) ==> final(shutdown)@ == (ShutdownState {
            run_had_failure: true,
            ..old(shutdown)@
        }) && !may_start(final(shutdown)@),
        r matches FailureSettlement::PrepareFailed(e) ==> final(shutdown)@ == old(shutdown)@
            && persist_outcome(persist, final(manager).saved(), Err::<(), AppError>(e)),
        r is Continue ==> final(shutdown)@ == old(shutdown)@ && persist_outcome(
            persist,
            final(manager).saved(),
            Ok::<(), AppError>(()),
        ),
        !old(manager).closing() ==> match task_position(old(manager).tasks(), task_id@) {
            None => final(manager).tasks() == old(manager).tasks() && final(manager).current()
                == current_without(old(manager).current(), task_id@) && (r is Continue || r is PrepareFailed),
            Some(p) => {
                let before = old(manager).tasks()[p];
                if before.retry_count < MAX_RETRIES {
                    &&& final(manager).tasks().len() == old(manager).tasks().len()
                    &&& forall|j: int|
                        0 <= j < old(manager).tasks().len() && j != p ==> final(manager).tasks()[j]
                            == old(manager).tasks()[j]
                    &&& progress_cleared(
                        before,
                        final(manager).tasks()[p],
                        TaskStatus::Waiting,
                        (before.retry_count + 1) as u8,
                        None,
                    )
                    &&& final(manager).current() == current_without(old(manager).current(), task_id@)
                    &&& (r is Continue || r is PrepareFailed)
                } else {
                    ||| (r is PrepareFailed && final(manager).tasks() == old(manager).tasks()
                        && final(manager).current() == old(manager).current())
                    ||| {
                        &&& exists|s: QueueState| call_ensures(persist, (&s,), Ok::<(), String>(()))
                        &&& final(manager).tasks() == old(manager).tasks().remove(p)
                        &&& final(manager).current() == current_without(old(manager).current(), task_id@)
                        &&& exists|t: Task, ar: Result<(), AppError>, fr: Result<bool, AppError>|
                            {
                                &&& failed_for_good(before, t, error_message@)
                                &&& call_ensures(append, (&t,), ar)
                                &&& persist_outcome(persist, final(manager).saved(), fr)
                                &&& r == failure_recorded(t, ar, fr)
                            }
                    }
                }
            },
        },
{
    output.clear_active_line(task_id);
    if manager.is_shutting_down() {
        return FailureSettlement::ShuttingDown;
    }
    match manager.prepare_task_failure(task_id, error_message, persist) {
        Ok(Some(TaskFailureTransition::Terminal(task))) => {
            shutdown.mark_run_failure();
            let ghost before = manager.tasks();
            let ghost mid = manager.saved();
            let ghost ended = task;
            proof {
                let p = task_position(old(manager).tasks(), task_id@).unwrap();
                assert(task_position(before, task_id@) == Some(p));
                assert(call_ensures(persist, (&mid,), Ok::<(), String>(())));
            }
            let outcome = record_terminal_failure_task(manager, task_id, task, append, persist);
            let r = match outcome {
                Ok(t) => FailureSettlement::Recorded(t),
                Err(e) => FailureSettlement::RecordFailed(e),
            };
            proof {
                let (ar, fr) = choose|ar: Result<(), AppError>, fr: Result<bool, AppError>|
                    {
                        &&& call_ensures(append, (&ended,), ar)
                        &&& persist_outcome(persist, manager.saved(), fr)
                        &&& outcome == match fr {
                            Err(e) => Err(e),
                            Ok(_) => match ar {
                                Ok(_) => Ok(ended),
                                Err(e) => Err(e),
                            },
                        }
                    };
                let p = task_position(old(manager).tasks(), task_id@).unwrap();
                assert(failed_for_good(old(manager).tasks()[p], ended, error_message@));
                assert(r == failure_recorded(ended, ar, fr));
            }
            r
        },
        Ok(_) => FailureSettlement::Continue,
        Err(e) => FailureSettlement::PrepareFailed(e),
    }
}

/// What handling a task's completion came to.
pub enum CompletionSettlement {
    /// The application shuts down; the completion is not recorded.
    ShuttingDown,
    /// The task was no longer queued.
    Ignored,
    /// The task was recorded in the history.
    Recorded(Task),
    /// Recording the task failed.
    RecordFailed(AppError),
}

/// The settlement of a completed task whose snapshot is `t`, given what
/// writing it to the history (`ar`) and saving the queue (`fr`) came to: an
/// error in saving the queue comes before one in writing the history.
pub open spec fn completion_recorded(t: Task, ar: Result<(), AppError>, fr: Result<bool, AppError>) -> CompletionSettlement {
    match fr {
        Err(e) => CompletionSettlement::RecordFailed(e),
        Ok(_) => match ar {
            Ok(_) => CompletionSettlement::Recorded(t),
            Err(e) => CompletionSettlement::RecordFailed(e),
        },
    }
}

/// Handles the completed download of task `task_id`, its output at
/// `output_path`: its active output line is forgotten and, unless the
/// application shuts down, the task is recorded in the history and leaves
/// the queue.
pub fn settle_task_completion<A, P>(
    manager: &mut QueueManager,
    output: &mut CliOutputStore,
    task_id: &str,
    output_path: &str,
    append: A,
    persist: P,
) -> (r: CompletionSettlement) where
    A: FnOnce(&Task) -> Result<(), AppError>,
    P: FnOnce(&QueueState) -> Result<(), String>,

    requires
        forall|t: &Task| call_requires(append, (t,)),
        forall|s: &QueueState| call_requires(persist, (s,)),
    ensures
        final(output).active_lines() == old(output).active_lines().remove(task_id@),
        final(output).base_path_view() == old(output).base_path_view(),
        final(manager).running() == old(manager).running(),
        final(manager).closing() == old(manager).closing(),
        (r is ShuttingDown) == old(manager).closing(),
        old(manager).closing() ==> final(manager).tasks() == old(manager).tasks() && final(manager).current()
            == old(manager).current(),
        !old(manager).closing() ==> match task_position(old(manager).tasks(), task_id@) {
            None => r is Ignored && final(manager).tasks() == old(manager).tasks() && final(manager).current()
                == old(manager).current(),
            Some(p) => {
                &&& final(manager).tasks() == old(manager).tasks().remove(p)
                &&& final(manager).current() == current_without(old(manager).current(), task_id@)
                &&& exists|snap: Task, ar: Result<(), AppError>, fr: Result<bool, AppError>|
                    {
                        &&& completed_snapshot(old(manager).tasks()[p], snap, output_path@)
                        &&& call_ensures(append, (&snap,), ar)
                        &&& persist_outcome(persist, final(manager).saved(), fr)
                        &&& r == completion_recorded(snap, ar, fr)
                    }
            },
        },
{
    output.clear_active_line(task_id);
    if manager.is_shutting_down() {
        return CompletionSettlement::ShuttingDown;
    }
    let outcome = record_completed_task(manager, task_id, output_path, append, persist);
    let r = match outcome {
        Ok(Some(t)) => CompletionSettlement::Recorded(t),
        Ok(None) => CompletionSettlement::Ignored,
        Err(e) => CompletionSettlement::RecordFailed(e),
    };
    proof {
        if let Some(p) = task_position(old(manager).tasks(), task_id@) {
            let (snap, ar, fr) = choose|snap: Task, ar: Result<(), AppError>, fr: Result<bool, AppError>|
                {
                    &&& completed_snapshot(old(manager).tasks()[p], snap, output_path@)
                    &&& call_ensures(append, (&snap,), ar)
                    &&& persist_outcome(persist, manager.saved(), fr)
                    &&& outcome == match fr {
                        Err(e) => Err(e),
                        Ok(_) => match ar {
                            Ok(_) => Ok(Some(snap)),
                            Err(e) => Err(e),
                        },
                    }
                };
            assert(r == completion_recorded(snap, ar, fr));
        }
    }
    r
}

/// Starts the automatic shutdown countdown once a run is over, when the user
/// asked for it, no task is waiting or downloading, and no failure,
/// countdown or cancellation stands in the way. The result holds the
/// countdown's length when one started.
pub fn maybe_start_shutdown_countdown<S>(
    manager: &QueueManager,
    shutdown: &mut ShutdownManager,
    settings: &AppSettings,
    schedule: S,
) -> (r: Result<Option<u64>, String>) where S: FnOnce(u64) -> Result<(), String>,

    requires
        call_requires(schedule, (SHUTDOWN_SECONDS,)),
    ensures
        ({
            let wanted = settings.auto_action_on_complete && !has_live(manager.tasks()) && may_start(
                old(shutdown)@,
            );
            &&& !wanted ==> r == Ok::<Option<u64>, String>(None) && final(shutdown)@ == old(shutdown)@
            &&& wanted ==> match r {
                Ok(s) => s == Some(SHUTDOWN_SECONDS) && final(shutdown)@ == (ShutdownState {
                    countdown_pending: true,
                    ..old(shutdown)@
                }) && call_ensures(schedule, (SHUTDOWN_SECONDS,), Ok::<(), String>(())),
                Err(e) => final(shutdown)@ == old(shutdown)@ && call_ensures(
                    schedule,
                    (SHUTDOWN_SECONDS,),
                    Err::<(), String>(e),
                ),
            }
        }),
{
    if !settings.auto_action_on_complete {
        return Ok(None);
    }
    if manager.has_live_work() {
        return Ok(None);
    }
    if !shutdown.should_start_countdown() {
        return Ok(None);
    }
    match shutdown.start_countdown(schedule) {
        Ok(seconds) => Ok(Some(seconds)),
        Err(e) => Err(e),
    }
}

/// What ending an idle run came to.
pub enum IdleRunOutcome {
    /// The run goes on: it was paused, has work left or a current task.
    NotIdle,
    /// The run ended; a shutdown countdown of this length started, if any.
    Finished { countdown: Option<u64> },
    /// Ending the run failed.
    Failed(AppError),
}

/// Ends the run if it has nothing left to do and then, as the settings ask,
/// starts the automatic shutdown countdown; a countdown that cannot be
/// scheduled is not reported.
pub fn finish_idle_run<P, S>(
    manager: &mut QueueManager,
    shutdown: &mut ShutdownManager,
    settings: &AppSettings,
    persist: P,
    schedule: S,
) -> (r: IdleRunOutcome) where
    P: FnOnce(&QueueState) -> Result<(), String>,
    S: FnOnce(u64) -> Result<(), String>,

    requires
        forall|s: &QueueState| call_requires(persist, (s,)),
        call_requires(schedule, (SHUTDOWN_SECONDS,)),
    ensures
        final(manager).tasks() == old(manager).tasks(),
        final(manager).current() == old(manager).current(),
        final(manager).closing() == old(manager).closing(),
        ({
            let idle = old(manager).running() && !has_live(old(manager).tasks()) && old(
                manager,
            ).current() is None;
            &&& !idle ==> r is NotIdle && final(shutdown)@ == old(shutdown)@ && final(manager).running()
                == old(manager).running()
            &&& idle ==> !final(manager).running() && (r is Finished || r is Failed)
            &&& r is Finished ==> idle && persist_outcome(
                persist,
                final(manager).saved(),
                Ok::<(), AppError>(()),
            )
            &&& r matches IdleRunOutcome::Failed(e) ==> idle && persist_outcome(
                persist,
                final(manager).saved(),
                Err::<(), AppError>(e),
            )
            &&& r matches IdleRunOutcome::Finished { countdown: Some(s) } ==> s == SHUTDOWN_SECONDS
                && settings.auto_action_on_complete && may_start(old(shutdown)@)
                && final(shutdown)@ == (ShutdownState { countdown_pending: true, ..old(shutdown)@ })
                && call_ensures(schedule, (SHUTDOWN_SECONDS,), Ok::<(), String>(()))
            &&& r matches IdleRunOutcome::Finished { countdown: None } ==> final(shutdown)@ == old(
                shutdown,
            )@ && (!(settings.auto_action_on_complete && may_start(old(shutdown)@)) || exists|e: String|
                call_ensures(schedule, (SHUTDOWN_SECONDS,), Err::<(), String>(e)))
            &&& r is Failed ==> final(shutdown)@ == old(shutdown)@
        }),
{
    match manager.finish_run_if_idle(persist) {
        Ok(true) => {
            let countdown = match maybe_start_shutdown_countdown(manager, shutdown, settings, schedule) {
                Ok(Some(seconds)) => Some(seconds),
                _ => None,
            };
            IdleRunOutcome::Finished { countdown }
        },
        Ok(false) => IdleRunOutcome::NotIdle,
        Err(e) => IdleRunOutcome::Failed(e),
    }
}

/// What applying new settings came to.
pub struct SettingsUpdate {
    /// The settings now in force.
    pub settings: AppSettings,
    /// The automatic action was switched off, so any countdown was cancelled
    /// and the user is to be told.
    pub countdown_cancelled: bool,
}

/// Applies new settings: they are normalized, saved with `save` and put in
/// force. Switching the automatic action on lets a countdown start again;
/// switching it off cancels a pending countdown with `cancel`, whose failure
/// is ignored.
pub fn apply_settings_update<F, C>(
    store: &mut SettingsStore,
    shutdown: &mut ShutdownManager,
    settings: AppSettings,
    save: F,
    cancel: C,
) -> (r: Result<SettingsUpdate, String>) where
    F: FnOnce(&AppSettings) -> Result<(), String>,
    C: FnOnce() -> Result<(), String>,

    requires
        forall|s: &AppSettings| call_requires(save, (s,)),
        call_requires(cancel, ()),
    ensures
        r is Err ==> final(store).current() == old(store).current() && final(shutdown)@ == old(
            shutdown,
        )@,
        r matches Err(e) ==> exists|n: AppSettings|
            normalized_settings_match(settings, n) && call_ensures(save, (&n,), Err::<(), String>(e)),
        r matches Ok(u) ==> {
            let before = old(store).current().auto_action_on_complete;
            let after = u.settings.auto_action_on_complete;
            &&& normalized_settings_match(settings, u.settings)
            &&& call_ensures(save, (&u.settings,), Ok::<(), String>(()))
            &&& final(store).current() == u.settings
            &&& u.countdown_cancelled == (before && !after)
            &&& (!before && after) ==> final(shutdown)@ == (ShutdownState {
                cancelled_until_reenabled: false,
                ..old(shutdown)@
            })
            &&& (before == after) ==> final(shutdown)@ == old(shutdown)@
            &&& (before && !after) ==> ((final(shutdown)@ == old(shutdown)@ && exists|e: String|
                call_ensures(cancel, (), Err::<(), String>(e))) || (final(shutdown)@ == (ShutdownState {
                countdown_pending: false,
                cancelled_until_reenabled: true,
                ..old(shutdown)@
            }) && call_ensures(cancel, (), Ok::<(), String>(()))))
        },
{
    let previous = store.get();
    let updated = match store.update(settings, save) {
        Ok(u) => u,
        Err(e) => {
            return Err(e);
        },
    };
    let mut countdown_cancelled = false;
    if !previous.auto_action_on_complete && updated.auto_action_on_complete {
        shutdown.clear_cancellation_after_reenable();
    }
    if previous.auto_action_on_complete && !updated.auto_action_on_complete {
        let _ = shutdown.cancel_countdown(cancel);
        countdown_cancelled = true;
    }
    Ok(SettingsUpdate { settings: updated, countdown_cancelled })
}

/// The message of a history task that could not be removed.
pub open spec fn history_task_missing_message(task_id: Seq<char>) -> Seq<char> {
    "History task "@ + task_id + " not found"@
}

/// The answer to a request to remove history task `task_id`, given whether
/// the history held it.
pub fn history_removal_result(removed: bool, task_id: &str) -> (r: Result<(), AppError>)
    ensures
        removed ==> r is Ok,
        !removed ==> (r matches Err(AppError::Message(m)) && m@ == history_task_missing_message(task_id@)),
{
    if removed {
        return Ok(());
    }
    let mut message = owned("History task ");
    push_str(&mut message, task_id);
    push_str(&mut message, " not found");
    Err(AppError::Message(message))
}

/// Retries task `task_id`: a failed task of the queue waits again; a task the
/// queue does not hold is looked up among the failed tasks of the history with
/// `find_failed` and queued anew. Other errors are returned as they are.
pub fn retry_or_requeue<H, P>(
    manager: &mut QueueManager,
    task_id: &str,
    find_failed: H,
    persist: P,
) -> (r: Result<Task, AppError>) where
    H: FnOnce(&str) -> Result<Option<Task>, AppError>,
    P: FnOnce(&QueueState) -> Result<(), String> + Copy,

    requires
        call_requires(find_failed, (task_id,)),
        forall|s: &QueueState| call_requires(persist, (s,)),
    ensures
        final(manager).running() == old(manager).running(),
        final(manager).current() == old(manager).current(),
        match task_position(old(manager).tasks(), task_id@) {
            Some(p) => {
                let before = old(manager).tasks()[p];
                if before.status == TaskStatus::Failed {
                    &&& final(manager).tasks().len() == old(manager).tasks().len()
                    &&& forall|j: int|
                        0 <= j < old(manager).tasks().len() && j != p ==> final(manager).tasks()[j]
                            == old(manager).tasks()[j]
                    &&& progress_cleared(
                        before,
                        final(manager).tasks()[p],
                        TaskStatus::Waiting,
                        before.retry_count,
                        None,
                    )
                    &&& persist_outcome(persist, final(manager).saved(), r)
                    &&& r matches Ok(t) ==> t == final(manager).tasks()[p]
                } else {
                    &&& final(manager).tasks() == old(manager).tasks()
                    &&& (r matches Err(AppError::InvalidTaskStatus { status: s, .. }) && s == before.status)
                }
            },
            None => exists|found: Result<Option<Task>, AppError>|
                {
                    &&& call_ensures(find_failed, (task_id,), found)
                    &&& match found {
                        Err(e) => r == Err::<Task, AppError>(e) && final(manager).tasks() == old(
                            manager,
                        ).tasks(),
                        Ok(None) => final(manager).tasks() == old(manager).tasks() && (r matches Err(
                            AppError::TaskNotFound { id },
                        ) && id@ == task_id@),
                        Ok(Some(h)) => {
                            &&& final(manager).tasks().len() == old(manager).tasks().len() + 1
                            &&& final(manager).tasks().take(old(manager).tasks().len() as int) == old(
                                manager,
                            ).tasks()
                            &&& is_new_task(final(manager).tasks().last(), h.url, h.save_name, h.headers)
                            &&& persist_outcome(persist, final(manager).saved(), r)
                            &&& r matches Ok(t) ==> t == final(manager).tasks().last()
                        },
                    }
                },
        },
{
    match manager.retry_task(task_id, persist) {
        Ok(t) => Ok(t),
        Err(AppError::TaskNotFound { id }) => {
            let found = match find_failed(task_id) {
                Ok(f) => f,
                Err(e) => {
                    return Err(e);
                },
            };
            match found {
                None => Err(AppError::TaskNotFound { id: owned(task_id) }),
                Some(history_task) => match manager.add_history_retry_task(&history_task, persist) {
                    Ok((t, _)) => Ok(t),
                    Err(e) => Err(e),
                },
            }
        },
        Err(e) => Err(e),
    }
}

/// How starting the queue went, once any pending countdown was cancelled.
pub struct QueueStart {
    /// A pending shutdown countdown was cancelled, and the user is to be told.
    pub countdown_cancelled: bool,
    /// Whether the queue now runs, so that its first task is to be started,
    /// or why the queue state could not be saved.
    pub outcome: Result<bool, AppError>,
}

/// Starts the queue: a new run begins, cancelling a pending countdown with
/// `cancel` (its failure is returned and nothing else happens); then the
/// queue runs if some task waits or downloads, and is paused otherwise.
pub fn begin_queue_start<C, P>(
    manager: &mut QueueManager,
    shutdown: &mut ShutdownManager,
    cancel: C,
    persist: P,
) -> (r: Result<QueueStart, AppError>) where
    C: FnOnce() -> Result<(), String>,
    P: FnOnce(&QueueState) -> Result<(), String>,

    requires
        call_requires(cancel, ()),
        forall|s: &QueueState| call_requires(persist, (s,)),
    ensures
        r is Err ==> final(manager).tasks() == old(manager).tasks() && final(manager).running() == old(
            manager,
        ).running() && final(shutdown)@ == old(shutdown)@ && old(shutdown)@.countdown_pending,
        r matches Ok(q) ==> {
            &&& q.countdown_cancelled == old(shutdown)@.countdown_pending
            &&& final(shutdown)@ == crate::shutdown::fresh_state()
            &&& final(manager).tasks() == old(manager).tasks()
            &&& final(manager).running() == has_live(old(manager).tasks())
            &&& persist_outcome(persist, final(manager).saved(), q.outcome)
            &&& q.outcome matches Ok(b) ==> b == has_live(old(manager).tasks())
        },
{
    let countdown_cancelled = match shutdown.reset_for_new_run(cancel) {
        Ok(c) => c,
        Err(e) => {
            return Err(AppError::Message(e));
        },
    };
    let live = manager.has_live_work();
    let outcome = match manager.set_running(live, persist) {
        Ok(()) => Ok(live),
        Err(e) => Err(e),
    };
    Ok(QueueStart { countdown_cancelled, outcome })
}

} // verus!
