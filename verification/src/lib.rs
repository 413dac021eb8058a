//! Queue, history and terminal-output logic of an m3u8 download queue manager.
pub mod app_error;
pub mod artifact;
pub mod cli_output;
pub mod close_policy;
pub mod history;
pub mod history_store;
pub mod models;
pub mod output_file;
pub mod persistence;
pub mod progress_parser;
pub mod queue;
pub mod queue_laws;
pub mod queue_manager;
pub mod queue_manager_laws;
pub mod retry_policy;
pub mod run_session;
pub mod runtime;
pub mod settings_store;
pub mod shutdown;
pub mod task;
pub mod task_output;
pub mod terminal;
pub mod terminal_history;
pub mod terminal_parser;
pub mod text;
