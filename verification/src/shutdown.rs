//! The automatic shutdown after a queue run: when a countdown may start, and
//! how starting, cancelling and a new run change that. The commands that
//! schedule and cancel the system shutdown are handed in by the caller.
use vstd::prelude::*;

verus! {

/// Seconds between the start of a countdown and the shutdown.
pub const SHUTDOWN_SECONDS: u64 = 60;

/// What the shutdown logic remembers.
#[derive(Debug, Clone, Copy, PartialEq, Eq, Structural)]
pub struct ShutdownState {
    /// A task of the current run failed for good.
    pub run_had_failure: bool,
    /// A shutdown is scheduled.
    pub countdown_pending: bool,
    /// The user cancelled a countdown and has not enabled the action again.
    pub cancelled_until_reenabled: bool,
}

/// Whether a countdown may start in state `s`: no failure in this run, none
/// pending, and none cancelled since the action was last enabled.
pub open spec fn may_start(s: ShutdownState) -> bool {
    !s.run_had_failure && !s.countdown_pending && !s.cancelled_until_reenabled
}

/// The state of a fresh run.
pub open spec fn fresh_state() -> ShutdownState {
    ShutdownState { run_had_failure: false, countdown_pending: false, cancelled_until_reenabled: false }
}

/// The automatic-shutdown logic of the application.
#[derive(Debug)]
pub struct ShutdownManager {
    state: ShutdownState,
}

impl View for ShutdownManager {
    type V = ShutdownState;

    closed spec fn view(&self) -> ShutdownState {
        self.state
    }
}

impl ShutdownManager {
    /// No failure, no countdown, nothing cancelled.
    pub fn new() -> (r: ShutdownManager)
        ensures
            r@ == fresh_state(),
    {
        ShutdownManager {
            state: ShutdownState {
                run_had_failure: false,
                countdown_pending: false,
                cancelled_until_reenabled: false,
            },
        }
    }

    /// Whether a shutdown is scheduled; a new run must cancel it first.
    pub fn countdown_pending(&self) -> (r: bool)
        ensures
            r == self@.countdown_pending,
    {
        self.state.countdown_pending
    }

    /// Starts a new run. A scheduled shutdown is cancelled first with `cancel`;
    /// if that fails, its error is returned and nothing changes. Otherwise all
    /// is forgotten and the result tells whether a countdown was cancelled.
    pub fn reset_for_new_run<F: FnOnce() -> Result<(), String>>(&mut self, cancel: F) -> (r:
        Result<bool, String>)
        requires
            call_requires(cancel, ()),
        ensures
            !old(self)@.countdown_pending ==> r == Ok::<bool, String>(false) && final(self)@ == fresh_state(),
            old(self)@.countdown_pending ==> match r {
                Ok(b) => b && final(self)@ == fresh_state() && call_ensures(cancel, (), Ok::<(), String>(())),
                Err(e) => final(self)@ == old(self)@ && call_ensures(cancel, (), Err::<(), String>(e)),
            },
    {
        let countdown_pending = self.state.countdown_pending;
        if countdown_pending {
            let outcome = cancel();
            match outcome {
                Ok(u) => {
                    assert(u == ());
                },
                Err(e) => {
                    return Err(e);
                },
            }
        }
        self.state.run_had_failure = false;
        self.state.countdown_pending = false;
        self.state.cancelled_until_reenabled = false;
        Ok(countdown_pending)
    }

    /// Remembers that a task of this run failed for good.
    pub fn mark_run_failure(&mut self)
        ensures
            final(self)@ == (ShutdownState { run_had_failure: true, ..old(self)@ }),
            final(self)@ == apply_event(old(self)@, ShutdownEvent::RunFailed),
    {
        self.state.run_had_failure = true;
    }

    /// Forgets a cancellation once the user enables the action again.
    pub fn clear_cancellation_after_reenable(&mut self)
        ensures
            final(self)@ == (ShutdownState { cancelled_until_reenabled: false, ..old(self)@ }),
            final(self)@ == apply_event(old(self)@, ShutdownEvent::ActionReenabled),
    {
        self.state.cancelled_until_reenabled = false;
    }

    pub fn should_start_countdown(&self) -> (r: bool)
        ensures
            r == may_start(self@),
    {
        !self.state.run_had_failure && !self.state.countdown_pending
            && !self.state.cancelled_until_reenabled
    }

    /// Schedules the shutdown with `schedule`, given the seconds to wait. On
    /// success the countdown is pending and its length returned; on failure the
    /// error is returned and nothing changes.
    pub fn start_countdown<F: FnOnce(u64) -> Result<(), String>>(&mut self, schedule: F) -> (r:
        Result<u64, String>)
        requires
            call_requires(schedule, (SHUTDOWN_SECONDS,)),
        ensures
            match r {
                Ok(s) => s == SHUTDOWN_SECONDS
                    && final(self)@ == (ShutdownState { countdown_pending: true, ..old(self)@ })
                    && final(self)@ == apply_event(old(self)@, ShutdownEvent::CountdownStarted)
                    && call_ensures(schedule, (SHUTDOWN_SECONDS,), Ok::<(), String>(())),
                Err(e) => final(self)@ == old(self)@
                    && call_ensures(schedule, (SHUTDOWN_SECONDS,), Err::<(), String>(e)),
            },
    {
        let outcome = schedule(SHUTDOWN_SECONDS);
        match outcome {
            Ok(u) => {
                assert(u == ());
            },
            Err(e) => {
                return Err(e);
            },
        }
        self.state.countdown_pending = true;
        Ok(SHUTDOWN_SECONDS)
    }

    /// Cancels the shutdown with `cancel`. On success no countdown is pending
    /// and none starts until the action is enabled again; on failure the error
    /// is returned and nothing changes.
    pub fn cancel_countdown<F: FnOnce() -> Result<(), String>>(&mut self, cancel: F) -> (r: Result<
        (),
        String,
    >)
        requires
            call_requires(cancel, ()),
        ensures
            match r {
                Ok(()) => final(self)@ == (ShutdownState {
                    countdown_pending: false,
                    cancelled_until_reenabled: true,
                    ..old(self)@
                }) && final(self)@ == apply_event(old(self)@, ShutdownEvent::CountdownCancelled)
                    && call_ensures(cancel, (), Ok::<(), String>(())),
                Err(e) => final(self)@ == old(self)@ && call_ensures(cancel, (), Err::<(), String>(e)),
            },
    {
        let outcome = cancel();
        match outcome {
            Ok(u) => {
                assert(u == ());
            },
            Err(e) => {
                return Err(e);
            },
        }
        self.state.countdown_pending = false;
        self.state.cancelled_until_reenabled = true;
        Ok(())
    }
}

impl Default for ShutdownManager {
    fn default() -> (r: ShutdownManager)
        ensures
            r@ == fresh_state(),
    {
        ShutdownManager::new()
    }
}

/// Seconds between the start of a countdown and the shutdown.
pub fn shutdown_seconds() -> (r: u64)
    ensures
        r == SHUTDOWN_SECONDS,
{
    SHUTDOWN_SECONDS
}

/// A failure in a run blocks the countdown for the rest of that run, whatever
/// else happens, until a new run starts.
pub proof fn law_failure_blocks_until_reset(s: ShutdownState)
    ensures
        !may_start(ShutdownState { run_had_failure: true, ..s }),
        !may_start(ShutdownState { run_had_failure: true, cancelled_until_reenabled: false, ..s }),
        !may_start(ShutdownState { run_had_failure: true, countdown_pending: true, ..s }),
        may_start(fresh_state()),
{
}

/// A cancelled countdown does not start again, even in a run without failure,
/// until the action is enabled again; enabling it again without a failure or a
/// pending countdown lets it start.
pub proof fn law_cancel_blocks_until_reenabled(s: ShutdownState)
    ensures
        !may_start(ShutdownState { countdown_pending: false, cancelled_until_reenabled: true, ..s }),
        !may_start(ShutdownState { countdown_pending: false, cancelled_until_reenabled: true, run_had_failure: false, ..s }),
        !s.run_had_failure ==> may_start(
            ShutdownState { countdown_pending: false, cancelled_until_reenabled: false, ..s },
        ),
{
}

/// A started countdown does not start again before it is cancelled or a new
/// run begins.
pub proof fn law_countdown_starts_once(s: ShutdownState)
    ensures
        !may_start(ShutdownState { countdown_pending: true, ..s }),
{
}

/// A successful call that changes what the shutdown logic remembers, since a
/// manager was made or a new run began.
pub enum ShutdownEvent {
    /// `mark_run_failure`.
    RunFailed,
    /// `start_countdown`, when the shutdown was scheduled.
    CountdownStarted,
    /// `cancel_countdown`, when the shutdown was cancelled.
    CountdownCancelled,
    /// `clear_cancellation_after_reenable`.
    ActionReenabled,
}

/// The state after event `e` in state `s`, as the manager's methods leave it.
pub open spec fn apply_event(s: ShutdownState, e: ShutdownEvent) -> ShutdownState {
    match e {
        ShutdownEvent::RunFailed => ShutdownState { run_had_failure: true, ..s },
        ShutdownEvent::CountdownStarted => ShutdownState { countdown_pending: true, ..s },
        ShutdownEvent::CountdownCancelled => ShutdownState {
            countdown_pending: false,
            cancelled_until_reenabled: true,
            ..s
        },
        ShutdownEvent::ActionReenabled => ShutdownState { cancelled_until_reenabled: false, ..s },
    }
}

/// The state after the events `events`, from a fresh run.
pub open spec fn state_after(events: Seq<ShutdownEvent>) -> ShutdownState
    decreases events.len(),
{
    if events.len() == 0 {
        fresh_state()
    } else {
        apply_event(state_after(events.drop_last()), events.last())
    }
}

/// A task of the run failed for good: some event is a failure.
pub open spec fn run_failed(events: Seq<ShutdownEvent>) -> bool
    decreases events.len(),
{
    events.len() > 0 && (events.last() is RunFailed || run_failed(events.drop_last()))
}

/// The later of the last start and the last cancellation is a start.
pub open spec fn countdown_started_last(events: Seq<ShutdownEvent>) -> bool
    decreases events.len(),
{
    if events.len() == 0 {
        false
    } else {
        match events.last() {
            ShutdownEvent::CountdownStarted => true,
            ShutdownEvent::CountdownCancelled => false,
            _ => countdown_started_last(events.drop_last()),
        }
    }
}

/// A cancellation happened and the action was not enabled again after it:
/// the later of the last cancellation and the last enabling is a cancellation.
pub open spec fn cancelled_since_reenabled(events: Seq<ShutdownEvent>) -> bool
    decreases events.len(),
{
    if events.len() == 0 {
        false
    } else {
        match events.last() {
            ShutdownEvent::CountdownCancelled => true,
            ShutdownEvent::ActionReenabled => false,
            _ => cancelled_since_reenabled(events.drop_last()),
        }
    }
}

proof fn lemma_state_after(events: Seq<ShutdownEvent>)
    ensures
        state_after(events).run_had_failure == run_failed(events),
        state_after(events).countdown_pending == countdown_started_last(events),
        state_after(events).cancelled_until_reenabled == cancelled_since_reenabled(events),
    decreases events.len(),
{
    if events.len() > 0 {
        lemma_state_after(events.drop_last());
    }
}

/// Over the successful calls since a manager was made or a new run began, a
/// countdown may start exactly when no task of the run failed for good, the
/// last start was followed by a cancellation (or none came), and no
/// cancellation stands without the action enabled again after it.
pub proof fn law_countdown_over_calls(events: Seq<ShutdownEvent>)
    ensures
        may_start(state_after(events)) == (!run_failed(events) && !countdown_started_last(events)
            && !cancelled_since_reenabled(events)),
{
    lemma_state_after(events);
}

} // verus!
