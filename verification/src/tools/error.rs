//! Structured errors of the tool system.
//!
//! `ToolError` is machine-readable: a stable kind label for logs, a
//! scrubbed message for end users, and a fuller diagnostic for developers.
use vstd::prelude::*;

use crate::text::{decimal, push_decimal, push_str};

verus! {

/// All errors that can arise from tool registration, dispatch, or execution.
#[derive(Debug, Clone)]
pub enum ToolError {
    /// No tool is registered under the given name.
    NotFound(String),
    /// The arguments did not validate against the tool's schema or could not
    /// be decoded into the tool's argument structure.
    InvalidArgs(String),
    /// The tool ran but its underlying operation failed.
    ExecutionFailed(String),
    /// The current user or context may not run the tool.
    PermissionDenied(String),
    /// The tool did not finish within its time budget.
    Timeout { tool: String, secs: u64 },
    /// A streaming-specific failure (channel closed, consumer dropped, ...).
    StreamingFailed(String),
}

/// Convenience alias used throughout the tool system.
pub type ToolResult<T> = Result<T, ToolError>;

/// The stable kind label of an error.
pub open spec fn kind_of(e: ToolError) -> Seq<char> {
    match e {
        ToolError::NotFound(_) => "not_found"@,
        ToolError::InvalidArgs(_) => "invalid_args"@,
        ToolError::ExecutionFailed(_) => "execution_failed"@,
        ToolError::PermissionDenied(_) => "permission_denied"@,
        ToolError::Timeout { .. } => "timeout"@,
        ToolError::StreamingFailed(_) => "streaming_failed"@,
    }
}

/// The message shown to the end user. The details of a failed operation
/// and of a refused permission (system messages, which hold file paths and
/// OS error strings) are left out; they stay in the diagnostic.
pub open spec fn user_message_of(e: ToolError) -> Seq<char> {
    match e {
        ToolError::NotFound(name) => "Tool '"@ + name@ + "' is not available."@,
        ToolError::InvalidArgs(msg) => "Invalid arguments: "@ + msg@,
        ToolError::ExecutionFailed(_) => "Tool execution failed."@,
        ToolError::PermissionDenied(_) => "Permission denied."@,
        ToolError::Timeout { tool, secs } => "Tool '"@ + tool@ + "' timed out after "@ + decimal(
            secs as nat,
        ) + "s."@,
        ToolError::StreamingFailed(msg) => "Streaming error: "@ + msg@,
    }
}

/// The full diagnostic, for logs and developers.
pub open spec fn diagnostic_of(e: ToolError) -> Seq<char> {
    match e {
        ToolError::NotFound(n) => "tool not found: "@ + n@,
        ToolError::InvalidArgs(m) => "invalid arguments: "@ + m@,
        ToolError::ExecutionFailed(m) => "execution failed: "@ + m@,
        ToolError::PermissionDenied(m) => "permission denied: "@ + m@,
        ToolError::Timeout { tool, secs } => "tool '"@ + tool@ + "' timed out after "@ + decimal(
            secs as nat,
        ) + "s"@,
        ToolError::StreamingFailed(m) => "streaming failed: "@ + m@,
    }
}

/// Law: the user-facing message of a failed operation, or of a refused
/// permission, is the same whatever system message the error carries, so
/// paths and OS error strings never reach the user.
pub proof fn lemma_user_message_hides_details(a: String, b: String)
    ensures
        user_message_of(ToolError::ExecutionFailed(a)) == user_message_of(
            ToolError::ExecutionFailed(b),
        ),
        user_message_of(ToolError::PermissionDenied(a)) == user_message_of(
            ToolError::PermissionDenied(b),
        ),
{
}

impl ToolError {
    /// Short stable kind label, suitable for tagging in logs or metrics.
    pub fn kind(&self) -> (r: &'static str)
        ensures
            r@ == kind_of(*self),
    {
        match self {
            ToolError::NotFound(_) => "not_found",
            ToolError::InvalidArgs(_) => "invalid_args",
            ToolError::ExecutionFailed(_) => "execution_failed",
            ToolError::PermissionDenied(_) => "permission_denied",
            ToolError::Timeout { .. } => "timeout",
            ToolError::StreamingFailed(_) => "streaming_failed",
        }
    }

    /// Human-readable message that is safe to surface to the end user.
    pub fn user_message(&self) -> (r: String)
        ensures
            r@ == user_message_of(*self),
    {
        let mut r = String::new();
        match self {
            ToolError::NotFound(name) => {
                push_str(&mut r, "Tool '");
                push_str(&mut r, name.as_str());
                push_str(&mut r, "' is not available.");
            },
            ToolError::InvalidArgs(msg) => {
                push_str(&mut r, "Invalid arguments: ");
                push_str(&mut r, msg.as_str());
            },
            ToolError::ExecutionFailed(_) => {
                push_str(&mut r, "Tool execution failed.");
            },
            ToolError::PermissionDenied(_) => {
                push_str(&mut r, "Permission denied.");
            },
            ToolError::Timeout { tool, secs } => {
                push_str(&mut r, "Tool '");
                push_str(&mut r, tool.as_str());
                push_str(&mut r, "' timed out after ");
                push_decimal(&mut r, *secs);
                push_str(&mut r, "s.");
            },
            ToolError::StreamingFailed(msg) => {
                push_str(&mut r, "Streaming error: ");
                push_str(&mut r, msg.as_str());
            },
        }
        r
    }

    /// The full diagnostic, for logs and developers (more verbose than
    /// `user_message`).
    pub fn to_string(&self) -> (r: String)
        ensures
            r@ == diagnostic_of(*self),
    {
        let mut r = String::new();
        match self {
            ToolError::NotFound(n) => {
                push_str(&mut r, "tool not found: ");
                push_str(&mut r, n.as_str());
            },
            ToolError::InvalidArgs(m) => {
                push_str(&mut r, "invalid arguments: ");
                push_str(&mut r, m.as_str());
            },
            ToolError::ExecutionFailed(m) => {
                push_str(&mut r, "execution failed: ");
                push_str(&mut r, m.as_str());
            },
            ToolError::PermissionDenied(m) => {
                push_str(&mut r, "permission denied: ");
                push_str(&mut r, m.as_str());
            },
            ToolError::Timeout { tool, secs } => {
                push_str(&mut r, "tool '");
                push_str(&mut r, tool.as_str());
                push_str(&mut r, "' timed out after ");
                push_decimal(&mut r, *secs);
                push_str(&mut r, "s");
            },
            ToolError::StreamingFailed(m) => {
                push_str(&mut r, "streaming failed: ");
                push_str(&mut r, m.as_str());
            },
        }
        r
    }

    /// The error for arguments that could not be decoded as JSON, given the
    /// decoder's message.
    pub fn from_json_error(message: &str) -> (r: ToolError)
        ensures
            r matches ToolError::InvalidArgs(m) && m@ == "JSON error: "@ + message@,
    {
        let mut m = String::new();
        push_str(&mut m, "JSON error: ");
        push_str(&mut m, message);
        ToolError::InvalidArgs(m)
    }

    /// The error for a failed I/O operation, given whether the operating
    /// system refused permission and its message.
    pub fn from_io_error(permission_denied: bool, message: &str) -> (r: ToolError)
        ensures
            permission_denied ==> (r matches ToolError::PermissionDenied(m) && m@ == message@),
            !permission_denied ==> (r matches ToolError::ExecutionFailed(m) && m@ == "io: "@
                + message@),
    {
        if permission_denied {
            ToolError::PermissionDenied(crate::text::owned(message))
        } else {
            let mut m = String::new();
            push_str(&mut m, "io: ");
            push_str(&mut m, message);
            ToolError::ExecutionFailed(m)
        }
    }
}

} // verus!
