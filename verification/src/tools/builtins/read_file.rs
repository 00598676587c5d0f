//! `read_file`: reads a UTF-8 text file.
use vstd::prelude::*;

use crate::text::owned;
use vstd::string::StringSliceAdditionalSpecFns;
use vstd::utf8::{encode_utf8, encode_utf8_valid_utf8, is_char_boundary, valid_utf8};

verus! {

/// The tool's description.
pub const DESCRIPTION: &'static str = "Read a UTF-8 text file from disk. Returns the file contents as a single string.";

/// Typed arguments for `read_file`.
#[derive(Debug, Clone)]
pub struct ReadFileArgs {
    /// Absolute or relative path to the file.
    pub path: String,
    /// Return at most this many bytes of the file (whole characters only);
    /// `DEFAULT_MAX_BYTES` when not given.
    pub max_bytes: Option<usize>,
}

/// The most bytes returned when the call gives no limit: 8 KiB.
pub const DEFAULT_MAX_BYTES: usize = 8192;

/// The `read_file` tool.
#[derive(Debug, Clone, Copy)]
pub struct ReadFileTool;

impl ReadFileTool {
    /// The tool's name.
    pub fn name(&self) -> (r: &'static str)
        ensures
            r@ == "read_file"@,
    {
        "read_file"
    }

    /// The tool's description.
    pub fn description(&self) -> (r: &'static str)
        ensures
            r@ == DESCRIPTION@,
    {
        DESCRIPTION
    }
}

/// The largest character boundary of the UTF-8 `bytes` at or below `n`.
pub open spec fn boundary_at_most(bytes: Seq<u8>, n: int) -> int
    decreases n,
{
    if n <= 0 {
        0
    } else if is_char_boundary(bytes, n) {
        n
    } else {
        boundary_at_most(bytes, n - 1)
    }
}

/// The byte limit in force: the one given, or `DEFAULT_MAX_BYTES`.
pub open spec fn byte_limit(max_bytes: Option<usize>) -> int {
    match max_bytes {
        Some(n) => n as int,
        None => DEFAULT_MAX_BYTES as int,
    }
}

/// What the tool returns for a file's content: the content itself when its
/// UTF-8 encoding fits in the limit, else its longest prefix of whole
/// characters that does, i.e. the encoding cut at the last character
/// boundary at or below the limit.
pub fn limit_content(content: String, max_bytes: Option<usize>) -> (r: String)
    requires
        encode_utf8(content@).len() <= usize::MAX,
    ensures
        encode_utf8(content@).len() <= byte_limit(max_bytes) ==> r@ == content@,
        encode_utf8(content@).len() > byte_limit(max_bytes) ==> encode_utf8(r@) == encode_utf8(
            content@,
        ).subrange(0, boundary_at_most(encode_utf8(content@), byte_limit(max_bytes))),
{
    let n: usize = match max_bytes {
        Some(n) => n,
        None => DEFAULT_MAX_BYTES,
    };
    let s = content.as_str();
    let ghost bytes = encode_utf8(content@);
    proof {
        encode_utf8_valid_utf8(content@);
    }
    assert(n as int == byte_limit(max_bytes));
    assert(s.spec_bytes() == bytes);
    if s.len() <= n {
        return content;
    }
    let mut k = n;
    while k > 0 && !s.is_char_boundary(k)
        invariant
            k <= n,
            n < bytes.len(),
            s@ == content@,
            valid_utf8(bytes),
            bytes == encode_utf8(content@),
            boundary_at_most(bytes, n as int) == boundary_at_most(bytes, k as int),
        decreases k,
    {
        k = k - 1;
    }
    assert(is_char_boundary(bytes, k as int));
    assert(boundary_at_most(bytes, k as int) == k);
    let (head, _) = s.split_at(k);
    let r = owned(head);
    assert(encode_utf8(r@) == head.spec_bytes());
    r
}

} // verus!
