//! The saved form of the queue: a version number and the queue state, and
//! what a loaded state becomes once the application restarts.
use vstd::prelude::*;
use crate::models::{QueueState, TaskStatus, PROGRESS_NONE};
use crate::queue_manager::reset_for_exit;

verus! {

/// The version of the saved queue this code reads and writes.
pub const QUEUE_STATE_VERSION: u32 = 1;

/// Saving and loading of the queue state.
pub struct Persistence;

impl Persistence {
    /// The version written with a saved queue.
    pub fn version() -> (r: u32)
        ensures
            r == QUEUE_STATE_VERSION,
    {
        QUEUE_STATE_VERSION
    }

    /// The queue to resume from a saved one of version `version`: none when
    /// the version is not this code's; otherwise the saved tasks with those
    /// that were downloading waiting again, their progress cleared, no task
    /// current and the queue paused, as no download survives a restart.
    pub fn restore(version: u32, state: QueueState) -> (r: Option<QueueState>)
        ensures
            version != QUEUE_STATE_VERSION ==> r is None,
            version == QUEUE_STATE_VERSION ==> (r matches Some(s) && reset_for_exit(state.tasks@, s.tasks@)
                && s.current_task_id is None && !s.is_running),
    {
        if version != QUEUE_STATE_VERSION {
            return None;
        }
        let mut state = state;
        let ghost before = state.tasks@;
        let mut i: usize = 0;
        while i < state.tasks.len()
            invariant
                i <= state.tasks@.len(),
                state.tasks@.len() == before.len(),
                forall|j: int|
                    0 <= j < i ==> if before[j].status == TaskStatus::Downloading {
                        crate::queue_manager::progress_cleared(
                            before[j],
                            #[trigger] state.tasks@[j],
                            TaskStatus::Waiting,
                            before[j].retry_count,
                            before[j].error_message,
                        )
                    } else {
                        state.tasks@[j] == before[j]
                    },
                forall|j: int| i <= j < before.len() ==> #[trigger] state.tasks@[j] == before[j],
            decreases state.tasks@.len() - i,
        {
            if state.tasks[i].status == TaskStatus::Downloading {
                state.tasks[i].status = TaskStatus::Waiting;
                state.tasks[i].progress_bits = PROGRESS_NONE;
                state.tasks[i].speed = String::new();
                state.tasks[i].threads = String::new();
            }
            i = i + 1;
        }
        state.current_task_id = None;
        state.is_running = false;
        Some(state)
    }
}

} // verus!
