//! What is kept of a task once it has finished: whether it completed or
//! failed, and with what result.
use vstd::prelude::*;
use crate::task::{TaskStatus, Timestamp};
use crate::text::{opt_as_str, opt_view};

verus! {

/// Whether a finished task completed or failed.
#[derive(Debug, Clone, Copy, PartialEq, Eq, Structural)]
pub enum HistoryStatus {
    Completed,
    Failed,
}

/// The history status a task status maps to: only completed and failed tasks
/// have one.
pub open spec fn terminal_status_of(status: TaskStatus) -> Option<HistoryStatus> {
    match status {
        TaskStatus::Completed => Some(HistoryStatus::Completed),
        TaskStatus::Failed => Some(HistoryStatus::Failed),
        _ => None,
    }
}

impl HistoryStatus {
    /// The history status of a task in `status`, if it has finished.
    pub fn from_task_status(status: &TaskStatus) -> (r: Option<HistoryStatus>)
        ensures
            r == terminal_status_of(*status),
    {
        match status {
            TaskStatus::Completed => Some(HistoryStatus::Completed),
            TaskStatus::Failed => Some(HistoryStatus::Failed),
            _ => None,
        }
    }
}

/// The record of a finished task: a completed one names what it produced and
/// has no error; a failed one has an error and produced nothing.
#[derive(Debug, Clone)]
pub struct HistoryRecord {
    task_id: String,
    url: String,
    save_name: Option<String>,
    status: HistoryStatus,
    error_message: Option<String>,
    artifact_ref: Option<String>,
    completed_at: Timestamp,
}

impl HistoryRecord {
    pub closed spec fn task_id_spec(&self) -> Seq<char> {
        self.task_id@
    }

    pub closed spec fn url_spec(&self) -> Seq<char> {
        self.url@
    }

    pub closed spec fn save_name_spec(&self) -> Option<Seq<char>> {
        opt_view(self.save_name)
    }

    pub closed spec fn status_spec(&self) -> HistoryStatus {
        self.status
    }

    pub closed spec fn error_message_spec(&self) -> Option<Seq<char>> {
        opt_view(self.error_message)
    }

    pub closed spec fn artifact_ref_spec(&self) -> Option<Seq<char>> {
        opt_view(self.artifact_ref)
    }

    pub closed spec fn completed_at_spec(&self) -> Timestamp {
        self.completed_at
    }

    /// A record is either completed with an artifact and no error, or failed
    /// with an error and no artifact.
    pub closed spec fn wf(&self) -> bool {
        match self.status {
            HistoryStatus::Completed => self.error_message is None && self.artifact_ref is Some,
            HistoryStatus::Failed => self.error_message is Some && self.artifact_ref is None,
        }
    }

    /// The record of a task that completed and produced `artifact_ref`.
    pub fn completed(
        task_id: String,
        url: String,
        save_name: Option<String>,
        artifact_ref: String,
        completed_at: Timestamp,
    ) -> (r: HistoryRecord)
        ensures
            r.wf(),
            r.task_id_spec() == task_id@,
            r.url_spec() == url@,
            r.save_name_spec() == opt_view(save_name),
            r.status_spec() == HistoryStatus::Completed,
            r.error_message_spec() is None,
            r.artifact_ref_spec() == Some(artifact_ref@),
            r.completed_at_spec() == completed_at,
    {
        HistoryRecord {
            task_id,
            url,
            save_name,
            status: HistoryStatus::Completed,
            error_message: None,
            artifact_ref: Some(artifact_ref),
            completed_at,
        }
    }

    /// The record of a task that failed with `error_message`.
    pub fn failed(
        task_id: String,
        url: String,
        save_name: Option<String>,
        error_message: String,
        completed_at: Timestamp,
    ) -> (r: HistoryRecord)
        ensures
            r.wf(),
            r.task_id_spec() == task_id@,
            r.url_spec() == url@,
            r.save_name_spec() == opt_view(save_name),
            r.status_spec() == HistoryStatus::Failed,
            r.error_message_spec() == Some(error_message@),
            r.artifact_ref_spec() is None,
            r.completed_at_spec() == completed_at,
    {
        HistoryRecord {
            task_id,
            url,
            save_name,
            status: HistoryStatus::Failed,
            error_message: Some(error_message),
            artifact_ref: None,
            completed_at,
        }
    }

    pub fn task_id(&self) -> (r: &str)
        ensures
            r@ == self.task_id_spec(),
    {
        self.task_id.as_str()
    }

    pub fn url(&self) -> (r: &str)
        ensures
            r@ == self.url_spec(),
    {
        self.url.as_str()
    }

    pub fn save_name(&self) -> (r: Option<&str>)
        ensures
            match r {
                Some(v) => self.save_name_spec() == Some(v@),
                None => self.save_name_spec() is None,
            },
    {
        opt_as_str(&self.save_name)
    }

    pub fn status(&self) -> (r: HistoryStatus)
        ensures
            r == self.status_spec(),
    {
        self.status
    }

    pub fn error_message(&self) -> (r: Option<&str>)
        ensures
            match r {
                Some(v) => self.error_message_spec() == Some(v@),
                None => self.error_message_spec() is None,
            },
    {
        opt_as_str(&self.error_message)
    }

    pub fn artifact_ref(&self) -> (r: Option<&str>)
        ensures
            match r {
                Some(v) => self.artifact_ref_spec() == Some(v@),
                None => self.artifact_ref_spec() is None,
            },
    {
        opt_as_str(&self.artifact_ref)
    }

    pub fn completed_at(&self) -> (r: Timestamp)
        ensures
            r == self.completed_at_spec(),
    {
        self.completed_at
    }
}

} // verus!
