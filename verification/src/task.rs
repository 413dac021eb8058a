//! Download tasks and their lifecycle status.
use vstd::prelude::*;

verus! {

/// Where a task stands in its lifecycle.
#[derive(Debug, Clone, Copy, PartialEq, Eq, Structural)]
pub enum TaskStatus {
    Waiting,
    Downloading,
    Completed,
    Failed,
    Cancelled,
}

impl TaskStatus {
    /// A task may leave the queue by request only while it is not active and not
    /// completed.
    pub open spec fn removable(self) -> bool {
        self is Waiting || self is Failed || self is Cancelled
    }

    /// Live work is work that is queued or running.
    pub open spec fn live(self) -> bool {
        self is Waiting || self is Downloading
    }

    pub fn can_remove_from_queue(&self) -> (r: bool)
        ensures
            r == self.removable(),
    {
        match self {
            TaskStatus::Waiting | TaskStatus::Failed | TaskStatus::Cancelled => true,
            _ => false,
        }
    }

    pub fn is_failed(&self) -> (r: bool)
        ensures
            r == (*self is Failed),
    {
        match self {
            TaskStatus::Failed => true,
            _ => false,
        }
    }

    pub fn is_downloading(&self) -> (r: bool)
        ensures
            r == (*self is Downloading),
    {
        match self {
            TaskStatus::Downloading => true,
            _ => false,
        }
    }

    pub fn is_live_work(&self) -> (r: bool)
        ensures
            r == self.live(),
    {
        match self {
            TaskStatus::Waiting | TaskStatus::Downloading => true,
            _ => false,
        }
    }

    pub fn is_waiting(&self) -> (r: bool)
        ensures
            r == (*self is Waiting),
    {
        match self {
            TaskStatus::Waiting => true,
            _ => false,
        }
    }

    pub fn is_cancelled(&self) -> (r: bool)
        ensures
            r == (*self is Cancelled),
    {
        match self {
            TaskStatus::Cancelled => true,
            _ => false,
        }
    }
}

/// A point in time: whole seconds since the Unix epoch and the nanoseconds past
/// that second.
#[derive(Debug, Clone, Copy, PartialEq, Eq, Structural)]
pub struct Timestamp {
    pub secs: i64,
    pub nanos: u32,
}

/// A download of one playlist URL, as the queue holds it.
#[derive(Debug, Clone)]
pub struct Task {
    pub id: String,
    pub url: String,
    pub save_name: Option<String>,
    pub headers: Option<String>,
    pub status: TaskStatus,
    pub retry_count: u8,
    pub error_message: Option<String>,
    pub created_at: Timestamp,
}

/// A copy of an optional string.
pub fn clone_opt_string(s: &Option<String>) -> (r: Option<String>)
    ensures
        r == *s,
{
    match s {
        Some(v) => Some(v.clone()),
        None => None,
    }
}

impl Task {
    /// A task that has just entered the queue: waiting, never retried, no error.
    pub fn new_queued(
        id: String,
        url: String,
        save_name: Option<String>,
        headers: Option<String>,
        created_at: Timestamp,
    ) -> (r: Task)
        ensures
            r.id == id,
            r.url == url,
            r.save_name == save_name,
            r.headers == headers,
            r.status == TaskStatus::Waiting,
            r.retry_count == 0,
            r.error_message is None,
            r.created_at == created_at,
    {
        Task {
            id,
            url,
            save_name,
            headers,
            status: TaskStatus::Waiting,
            retry_count: 0,
            error_message: None,
            created_at,
        }
    }

    /// The same task, field by field, as a new value.
    pub fn duplicate(&self) -> (r: Task)
        ensures
            r == *self,
    {
        Task {
            id: self.id.clone(),
            url: self.url.clone(),
            save_name: clone_opt_string(&self.save_name),
            headers: clone_opt_string(&self.headers),
            status: self.status,
            retry_count: self.retry_count,
            error_message: clone_opt_string(&self.error_message),
            created_at: self.created_at,
        }
    }
}

} // verus!
