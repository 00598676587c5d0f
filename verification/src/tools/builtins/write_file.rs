//! `write_file`: writes (or appends) text to a file, creating parent
//! directories as needed.
use vstd::prelude::*;

use crate::text::{decimal, owned, push_decimal, push_str};

verus! {

/// The tool's description.
pub const DESCRIPTION: &'static str = "Write content to a file on disk. Creates parent directories if needed. Overwrites by default; pass \"append\": true to append.";

/// Typed arguments for `write_file`.
#[derive(Debug, Clone)]
pub struct WriteFileArgs {
    /// Absolute or relative path to the file.
    pub path: String,
    /// The content to write.
    pub content: String,
    /// Append instead of overwriting.
    pub append: bool,
}

/// The `write_file` tool.
#[derive(Debug, Clone, Copy)]
pub struct WriteFileTool;

impl WriteFileTool {
    /// The tool's name.
    pub fn name(&self) -> (r: &'static str)
        ensures
            r@ == "write_file"@,
    {
        "write_file"
    }

    /// The tool's description.
    pub fn description(&self) -> (r: &'static str)
        ensures
            r@ == DESCRIPTION@,
    {
        DESCRIPTION
    }
}

/// The report of a completed write: the number of bytes of content written
/// and the path.
pub fn write_report(args: &WriteFileArgs) -> (r: String)
    ensures
        r@ == "Wrote "@ + decimal((vstd::utf8::encode_utf8(args.content@).len() as usize) as nat) + " bytes to "@
            + args.path@,
{
    let n = args.content.as_str().len();
    let mut r = owned("Wrote ");
    push_decimal(&mut r, n as u64);
    push_str(&mut r, " bytes to ");
    push_str(&mut r, args.path.as_str());
    r
}

} // verus!
