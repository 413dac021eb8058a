//! The transcript of one run of the download tool: how many lines it has
//! committed and the line it is writing.
use vstd::prelude::*;
use crate::text::{opt_as_str, opt_view};

verus! {

/// The terminal output of one task.
#[derive(Debug, Clone, PartialEq, Eq)]
pub struct TerminalTranscript {
    task_id: String,
    line_count: usize,
    active_line: Option<String>,
}

impl TerminalTranscript {
    pub closed spec fn task_id_spec(&self) -> Seq<char> {
        self.task_id@
    }

    pub closed spec fn line_count_spec(&self) -> nat {
        self.line_count as nat
    }

    pub closed spec fn active_line_spec(&self) -> Option<Seq<char>> {
        opt_view(self.active_line)
    }

    /// A transcript with nothing in it yet.
    pub fn new(task_id: String) -> (r: TerminalTranscript)
        ensures
            r.task_id_spec() == task_id@,
            r.line_count_spec() == 0,
            r.active_line_spec() is None,
    {
        TerminalTranscript { task_id, line_count: 0, active_line: None }
    }

    /// A transcript of which `line_count` lines were committed before.
    pub fn with_line_count(task_id: String, line_count: usize) -> (r: TerminalTranscript)
        ensures
            r.task_id_spec() == task_id@,
            r.line_count_spec() == line_count,
            r.active_line_spec() is None,
    {
        TerminalTranscript { task_id, line_count, active_line: None }
    }

    pub fn task_id(&self) -> (r: &str)
        ensures
            r@ == self.task_id_spec(),
    {
        self.task_id.as_str()
    }

    pub fn line_count(&self) -> (r: usize)
        ensures
            r == self.line_count_spec(),
    {
        self.line_count
    }

    pub fn active_line(&self) -> (r: Option<&str>)
        ensures
            match r {
                Some(v) => self.active_line_spec() == Some(v@),
                None => self.active_line_spec() is None,
            },
    {
        opt_as_str(&self.active_line)
    }

    /// Commits a line: one more line, and none being written.
    pub fn commit_line(&mut self, line: &str)
        requires
            old(self).line_count_spec() < usize::MAX,
        ensures
            final(self).task_id_spec() == old(self).task_id_spec(),
            final(self).line_count_spec() == old(self).line_count_spec() + 1,
            final(self).active_line_spec() is None,
    {
        self.line_count = self.line_count + 1;
        self.active_line = None;
    }

    /// Replaces the line being written.
    pub fn set_active_line(&mut self, line: String)
        ensures
            final(self).task_id_spec() == old(self).task_id_spec(),
            final(self).line_count_spec() == old(self).line_count_spec(),
            final(self).active_line_spec() == Some(line@),
    {
        self.active_line = Some(line);
    }

    /// Drops the line being written.
    pub fn clear_active_line(&mut self)
        ensures
            final(self).task_id_spec() == old(self).task_id_spec(),
            final(self).line_count_spec() == old(self).line_count_spec(),
            final(self).active_line_spec() is None,
    {
        self.active_line = None;
    }

    /// Whether nothing was committed and nothing is being written.
    pub fn is_empty(&self) -> (r: bool)
        ensures
            r == (self.line_count_spec() == 0 && self.active_line_spec() is None),
    {
        self.line_count == 0 && self.active_line.is_none()
    }
}

} // verus!
