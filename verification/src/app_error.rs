//! The errors of the application's operations.
use vstd::prelude::*;
use crate::models::TaskStatus;

verus! {

/// Why an operation did not complete.
#[derive(Debug)]
pub enum AppError {
    /// A failure described by its message, such as a file that could not be
    /// written.
    Message(String),
    /// No task has the id.
    TaskNotFound { id: String },
    /// The task is not in a status that allows the action.
    InvalidTaskStatus { action: String, id: String, status: TaskStatus },
    /// The download tool could not be found.
    CliExecutableNotFound { name: String },
}

impl AppError {
    /// An error carrying `message`.
    pub fn message(message: String) -> (r: AppError)
        ensures
            r matches AppError::Message(m) && m == message,
    {
        AppError::Message(message)
    }
}

} // verus!
