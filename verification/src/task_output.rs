//! How a download is started and how what the download tool reports becomes
//! events: the tool's arguments, the lines shown for each output stream, and
//! the event a finished process yields.
use vstd::prelude::*;
use crate::text::{concat, opt_view, owned, push_signed_decimal, signed_decimal};

verus! {

broadcast use vstd::string::group_string_axioms;

/// The prefix of lines read from the tool's error stream.
pub open spec fn stderr_prefix() -> Seq<char> {
    "[stderr] "@
}

pub fn stderr_log_prefix() -> (r: &'static str)
    ensures
        r@ == stderr_prefix(),
{
    "[stderr] "
}

/// Only the output stream, which has no prefix, drives the line the terminal
/// view shows as being written.
pub fn should_emit_active_line(log_prefix: Option<&str>) -> (r: bool)
    ensures
        r == log_prefix.is_none(),
{
    log_prefix.is_none()
}

/// The characters of an optional prefix; none for no prefix.
pub open spec fn prefix_chars(log_prefix: Option<&str>) -> Seq<char> {
    match log_prefix {
        Some(p) => p@,
        None => Seq::empty(),
    }
}

/// A committed line as logged: the stream's prefix, then the segment.
pub fn committed_line_text(segment: &str, log_prefix: Option<&str>) -> (r: String)
    ensures
        r@ == prefix_chars(log_prefix) + segment@,
{
    match log_prefix {
        Some(prefix) => concat(prefix, segment),
        None => {
            let r = owned(segment);
            proof {
                assert(Seq::<char>::empty() + segment@ =~= segment@);
            }
            r
        },
    }
}

/// The line being written as shown: nothing when it is empty, otherwise the
/// stream's prefix and the line.
pub fn active_line_text(line: &str, log_prefix: Option<&str>) -> (r: String)
    ensures
        line@.len() == 0 ==> r@ == Seq::<char>::empty(),
        line@.len() > 0 ==> r@ == prefix_chars(log_prefix) + line@,
{
    if line.is_empty() {
        String::new()
    } else {
        committed_line_text(line, log_prefix)
    }
}

/// Whether a committed segment is shown at all: empty segments are not.
pub fn should_emit_committed_line(segment: &str) -> (r: bool)
    ensures
        r == (segment@.len() > 0),
{
    !segment.is_empty()
}

/// The arguments the download tool is run with for a task: the URL, the work
/// directory, the save name and the headers when given and not empty, and
/// the request to delete the parts once done.
pub open spec fn cli_args_spec(
    url: Seq<char>,
    download_dir: Seq<char>,
    save_name: Option<Seq<char>>,
    headers: Option<Seq<char>>,
) -> Seq<Seq<char>> {
    let base = seq![url, "--workDir"@, download_dir];
    let with_name = match save_name {
        Some(n) => if n.len() > 0 {
            base + seq!["--saveName"@, n]
        } else {
            base
        },
        None => base,
    };
    let with_headers = match headers {
        Some(h) => if h.len() > 0 {
            with_name + seq!["--headers"@, h]
        } else {
            with_name
        },
        None => with_name,
    };
    with_headers.push("--enableDelAfterDone"@)
}

/// Whether an optional text is given and not empty.
pub open spec fn given(t: Option<Seq<char>>) -> bool {
    t matches Some(v) && v.len() > 0
}

/// How the arguments `a` are laid out: the URL, `--workDir` and the work
/// directory first; then `--saveName` and the save name exactly when a save
/// name is given; the headers right before the last argument, after
/// `--headers`, exactly when headers are given, whether or not a save name
/// is; and `--enableDelAfterDone` last, with nothing else in between.
pub open spec fn args_laid_out(
    a: Seq<Seq<char>>,
    url: Seq<char>,
    download_dir: Seq<char>,
    save_name: Option<Seq<char>>,
    headers: Option<Seq<char>>,
) -> bool {
    let n = a.len();
    &&& n == 4 + (if given(save_name) { 2int } else { 0int }) + (if given(headers) { 2int } else { 0int })
    &&& a[0] == url && a[1] == "--workDir"@ && a[2] == download_dir
    &&& a[n - 1] == "--enableDelAfterDone"@
    &&& given(save_name) ==> a[3] == "--saveName"@ && a[4] == save_name->0
    &&& given(headers) ==> a[n - 3] == "--headers"@ && a[n - 2] == headers->0
}

/// The download tool's arguments always hold the URL and work directory
/// first and end with the request to delete the parts; a save name, when
/// given, follows them after `--saveName`; headers, when given, come right
/// before the end after `--headers`, whether or not a save name is given.
pub proof fn law_cli_args_layout(
    url: Seq<char>,
    download_dir: Seq<char>,
    save_name: Option<Seq<char>>,
    headers: Option<Seq<char>>,
)
    ensures
        args_laid_out(cli_args_spec(url, download_dir, save_name, headers), url, download_dir, save_name, headers),
{
    reveal_strlit("--workDir");
    reveal_strlit("--saveName");
    reveal_strlit("--headers");
    reveal_strlit("--enableDelAfterDone");
}

/// The characters of each string.
pub open spec fn views(v: Seq<String>) -> Seq<Seq<char>> {
    v.map_values(|s: String| s@)
}

fn push_arg(args: &mut Vec<String>, arg: &str)
    ensures
        views(final(args)@) == views(old(args)@).push(arg@),
{
    args.push(owned(arg));
    proof {
        assert(views(args@) =~= views(old(args)@).push(arg@));
    }
}

/// The arguments the download tool is run with for a task.
pub fn build_cli_args(
    url: &str,
    download_dir: &str,
    save_name: &Option<String>,
    headers: &Option<String>,
) -> (r: Vec<String>)
    ensures
        views(r@) == cli_args_spec(url@, download_dir@, opt_view(*save_name), opt_view(*headers)),
        args_laid_out(views(r@), url@, download_dir@, opt_view(*save_name), opt_view(*headers)),
{
    proof {
        law_cli_args_layout(url@, download_dir@, opt_view(*save_name), opt_view(*headers));
    }
    let mut args: Vec<String> = Vec::new();
    proof {
        assert(views(args@) =~= Seq::<Seq<char>>::empty());
    }
    push_arg(&mut args, url);
    push_arg(&mut args, "--workDir");
    push_arg(&mut args, download_dir);
    let ghost base = views(args@);
    proof {
        assert(base =~= seq![url@, "--workDir"@, download_dir@]);
    }
    match save_name {
        Some(name) => {
            if !name.as_str().is_empty() {
                push_arg(&mut args, "--saveName");
                push_arg(&mut args, name.as_str());
                proof {
                    assert(views(args@) =~= base + seq!["--saveName"@, name@]);
                }
            }
        },
        None => {},
    }
    let ghost with_name = views(args@);
    match headers {
        Some(h) => {
            if !h.as_str().is_empty() {
                push_arg(&mut args, "--headers");
                push_arg(&mut args, h.as_str());
                proof {
                    assert(views(args@) =~= with_name + seq!["--headers"@, h@]);
                }
            }
        },
        None => {},
    }
    push_arg(&mut args, "--enableDelAfterDone");
    args
}

/// How the download tool's process ended, as the runner saw it.
#[derive(Debug, Clone)]
pub enum ProcessExit {
    /// It exited successfully.
    Success,
    /// It exited unsuccessfully, with this code if it had one.
    Failure { code: Option<i32> },
    /// Waiting for it failed with this message.
    WaitError(String),
}

/// What became of a started task.
#[derive(Debug, Clone, PartialEq, Eq)]
pub enum TaskLifecycleEvent {
    Completed { id: String, output_path: String },
    Failed { id: String, error_message: String },
}

/// The message of a process that exited with `code`, `-1` standing for none.
pub open spec fn exit_code_message(code: Option<i32>) -> Seq<char> {
    "Process exited with code: "@ + signed_decimal(
        match code {
            Some(c) => c as int,
            None => -1,
        },
    )
}

/// The message of a failure to wait for the process.
pub open spec fn wait_error_message(e: Seq<char>) -> Seq<char> {
    "Process error: "@ + e
}

/// The event a finished download yields: completion, with the output file
/// found (or none) when the process succeeded; otherwise failure with a
/// message that gives the exit code or the waiting error.
pub fn lifecycle_event(task_id: String, exit: ProcessExit, output_path: Option<String>) -> (r:
    TaskLifecycleEvent)
    ensures
        match exit {
            ProcessExit::Success => r matches TaskLifecycleEvent::Completed { id, output_path: p }
                && id == task_id && p@ == match opt_view(output_path) {
                Some(v) => v,
                None => Seq::<char>::empty(),
            },
            ProcessExit::Failure { code } => r matches TaskLifecycleEvent::Failed { id, error_message: m }
                && id == task_id && m@ == exit_code_message(code),
            ProcessExit::WaitError(e) => r matches TaskLifecycleEvent::Failed { id, error_message: m }
                && id == task_id && m@ == wait_error_message(e@),
        },
{
    match exit {
        ProcessExit::Success => {
            let path = match output_path {
                Some(p) => p,
                None => String::new(),
            };
            TaskLifecycleEvent::Completed { id: task_id, output_path: path }
        },
        ProcessExit::Failure { code } => {
            let mut message = owned("Process exited with code: ");
            let value: i32 = match code {
                Some(c) => c,
                None => -1,
            };
            push_signed_decimal(&mut message, value);
            TaskLifecycleEvent::Failed { id: task_id, error_message: message }
        },
        ProcessExit::WaitError(e) => {
            let message = concat("Process error: ", e.as_str());
            TaskLifecycleEvent::Failed { id: task_id, error_message: message }
        },
    }
}

} // verus!
