//! `run_command`: runs a shell command through the host's shell and
//! reports its output.
use vstd::prelude::*;

use crate::text::{owned, push_signed_decimal, push_str, trim, trimmed};
use crate::tools::error::ToolError;

verus! {

/// The tool's description.
pub const DESCRIPTION: &'static str = "Run a shell command on the user's machine. Uses the host's default shell (cmd on Windows, sh on Linux/macOS). Returns combined stdout and stderr.";

/// Seconds a command may run when the call gives no timeout.
pub const DEFAULT_TIMEOUT_SECS: u64 = 120;

/// Seconds allowed for the process to exit once its output has closed.
pub const EXIT_WAIT_SECS: u64 = 5;

/// Typed arguments for `run_command`.
#[derive(Debug, Clone)]
pub struct RunCommandArgs {
    /// The shell command to execute, passed verbatim to the host shell.
    pub command: String,
    /// Optional working directory; the current directory by default.
    pub cwd: Option<String>,
    /// Optional timeout in seconds.
    pub timeout_secs: Option<u64>,
}

/// The `run_command` tool.
#[derive(Debug, Clone, Copy)]
pub struct RunCommandTool;

impl RunCommandTool {
    /// The tool's name.
    pub fn name(&self) -> (r: &'static str)
        ensures
            r@ == "run_command"@,
    {
        "run_command"
    }

    /// The tool's description.
    pub fn description(&self) -> (r: &'static str)
        ensures
            r@ == DESCRIPTION@,
    {
        DESCRIPTION
    }
}

impl RunCommandArgs {
    /// The timeout in seconds: the one given, or the default.
    pub fn timeout(&self) -> (r: u64)
        ensures
            r == match self.timeout_secs {
                Some(s) => s,
                None => DEFAULT_TIMEOUT_SECS,
            },
    {
        match self.timeout_secs {
            Some(s) => s,
            None => DEFAULT_TIMEOUT_SECS,
        }
    }
}

/// The report of a finished command, from its (decoded) standard output and
/// standard error: the trimmed output, then the trimmed error text after a
/// `[stderr] ` marker (on a new line when there was output), or
/// `(no output)` when both are empty.
pub open spec fn command_report(stdout: Seq<char>, stderr: Seq<char>) -> Seq<char> {
    let out = trim(stdout);
    let err = trim(stderr);
    let combined = if err.len() == 0 {
        out
    } else if out.len() == 0 {
        "[stderr] "@ + err
    } else {
        out + "\n[stderr] "@ + err
    };
    if combined.len() == 0 {
        "(no output)"@
    } else {
        combined
    }
}

/// Combines a finished command's output into its report.
pub fn command_output(stdout: &str, stderr: &str) -> (r: String)
    ensures
        r@ == command_report(stdout@, stderr@),
{
    let mut result = trimmed(stdout);
    let err = trimmed(stderr);
    if !err.as_str().is_empty() {
        if !result.as_str().is_empty() {
            push_str(&mut result, "\n[stderr] ");
        } else {
            push_str(&mut result, "[stderr] ");
        }
        push_str(&mut result, err.as_str());
    }
    if result.as_str().is_empty() {
        owned("(no output)")
    } else {
        result
    }
}

/// The text `String::from_utf8_lossy` makes of bytes: the bytes decoded as
/// UTF-8, each invalid sequence replaced by U+FFFD.
pub uninterp spec fn utf8_lossy(bytes: Seq<u8>) -> Seq<char>;

/// Decodes a command's output (`String::from_utf8_lossy`). The contract
/// names the result, and states what the documentation gives of it: valid
/// UTF-8 decodes to exactly the text it encodes.
#[verifier::external_body]
fn lossy_text(bytes: &[u8]) -> (r: String)
    ensures
        r@ == utf8_lossy(bytes@),
        vstd::utf8::valid_utf8(bytes@) ==> vstd::utf8::encode_utf8(r@) == bytes@,
{
    String::from_utf8_lossy(bytes).into_owned()
}

/// The report of a finished command from the raw bytes of its standard
/// output and standard error, each decoded as UTF-8 with invalid sequences
/// replaced.
pub fn command_output_bytes(stdout: &[u8], stderr: &[u8]) -> (r: String)
    ensures
        r@ == command_report(utf8_lossy(stdout@), utf8_lossy(stderr@)),
{
    let out = lossy_text(stdout);
    let err = lossy_text(stderr);
    command_output(out.as_str(), err.as_str())
}

/// The error for a command that outlived its time budget.
pub fn timeout_error(secs: u64) -> (r: ToolError)
    ensures
        r matches ToolError::Timeout { tool, secs: s } && tool@ == "run_command"@ && s == secs,
{
    ToolError::Timeout { tool: owned("run_command"), secs }
}

/// The error for a failed step (`spawn`, `wait`, `read stdout`, ...) with
/// the system's message.
pub fn step_failed(step: &str, detail: &str) -> (r: ToolError)
    ensures
        r matches ToolError::ExecutionFailed(m) && m@ == step@ + ": "@ + detail@,
{
    let mut m = owned(step);
    push_str(&mut m, ": ");
    push_str(&mut m, detail);
    ToolError::ExecutionFailed(m)
}

/// Which output stream of a running command an event concerns.
#[derive(Debug, Clone, Copy, PartialEq, Eq, Structural)]
pub enum OutputStream {
    Stdout,
    Stderr,
}

/// What happened while streaming a running command's output.
#[derive(Debug)]
pub enum StreamEvent {
    /// The time budget ran out.
    DeadlinePassed,
    /// A line arrived on a stream.
    Line(OutputStream, String),
    /// A stream reached its end.
    Closed(OutputStream),
    /// Reading a stream failed with the given message.
    ReadFailed(OutputStream, String),
}

/// What to do next while streaming a running command's output.
#[derive(Debug)]
pub enum StreamAction {
    /// Forward this line to the consumer and keep reading (if the consumer
    /// is gone, kill the command and finish without error).
    Forward(String),
    /// Keep reading.
    Continue,
    /// Stop reading and wait for the command to exit.
    Finish,
    /// Kill the command and fail with this error.
    Abort(ToolError),
}

/// `a` aborts with the timeout error of `run_command` after `secs` seconds.
pub open spec fn is_timeout(a: StreamAction, secs: u64) -> bool {
    match a {
        StreamAction::Abort(e) => match e {
            ToolError::Timeout { tool, secs: s } => tool@ == "run_command"@ && s == secs,
            _ => false,
        },
        _ => false,
    }
}

/// The step taken for one streaming event, given the time budget.
pub fn stream_step(event: StreamEvent, timeout_secs: u64) -> (r: StreamAction)
    ensures
        match event {
            StreamEvent::DeadlinePassed => is_timeout(r, timeout_secs),
            StreamEvent::Line(stream, l) => r matches StreamAction::Forward(x) && x@ == if stream
                == OutputStream::Stdout {
                l@
            } else {
                "[stderr] "@ + l@
            },
            StreamEvent::Closed(stream) => if stream == OutputStream::Stdout {
                r is Finish
            } else {
                r is Continue
            },
            StreamEvent::ReadFailed(stream, m) => r matches StreamAction::Abort(e) && e matches ToolError::ExecutionFailed(x)
                && x@ == if stream == OutputStream::Stdout {
                "read stdout"@ + ": "@ + m@
            } else {
                "read stderr"@ + ": "@ + m@
            },
        },
{
    match event {
        StreamEvent::DeadlinePassed => StreamAction::Abort(timeout_error(timeout_secs)),
        StreamEvent::Line(stream, l) => {
            if stream == OutputStream::Stdout {
                StreamAction::Forward(l)
            } else {
                let mut x = owned("[stderr] ");
                push_str(&mut x, l.as_str());
                StreamAction::Forward(x)
            }
        },
        StreamEvent::Closed(stream) => {
            if stream == OutputStream::Stdout {
                StreamAction::Finish
            } else {
                StreamAction::Continue
            }
        },
        StreamEvent::ReadFailed(stream, m) => {
            if stream == OutputStream::Stdout {
                StreamAction::Abort(step_failed("read stdout", m.as_str()))
            } else {
                StreamAction::Abort(step_failed("read stderr", m.as_str()))
            }
        },
    }
}

/// The last line sent for a command that exited unsuccessfully: its exit
/// code, or -1 when it has none (killed by a signal).
pub fn exit_note(success: bool, code: Option<i32>) -> (r: Option<String>)
    ensures
        success ==> r is None,
        !success ==> (r matches Some(s) && s@ == "[exit code: "@ + crate::text::signed_decimal(
            match code {
                Some(c) => c as int,
                None => -1,
            },
        ) + "]"@),
{
    if success {
        return None;
    }
    let c: i64 = match code {
        Some(c) => c as i64,
        None => -1,
    };
    let mut s = owned("[exit code: ");
    push_signed_decimal(&mut s, c);
    push_str(&mut s, "]");
    Some(s)
}

} // verus!
