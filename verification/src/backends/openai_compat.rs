//! The chat-completions protocol shared by most providers: where requests
//! go, how they authenticate, and what failures say.
use vstd::prelude::*;

use crate::text::{chars_of, owned, push_range, push_str, string_from};

verus! {

/// `s` without its trailing `c` characters.
pub open spec fn strip_trailing(s: Seq<char>, c: char) -> Seq<char>
    decreases s.len(),
{
    if s.len() > 0 && s.last() == c {
        strip_trailing(s.drop_last(), c)
    } else {
        s
    }
}

/// The chat-completions endpoint under a base URL: the base without
/// trailing slashes, then `/chat/completions`.
pub open spec fn completions_url(base_url: Seq<char>) -> Seq<char> {
    strip_trailing(base_url, '/') + "/chat/completions"@
}

/// The chat-completions endpoint under a base URL.
pub fn chat_completions_url(base_url: &str) -> (r: String)
    ensures
        r@ == completions_url(base_url@),
{
    let t = chars_of(base_url);
    let mut n = t.len();
    assert(t@.subrange(0, n as int) =~= t@);
    while n > 0 && t[n - 1] == '/'
        invariant
            n <= t@.len(),
            strip_trailing(t@, '/') == strip_trailing(t@.subrange(0, n as int), '/'),
        decreases n,
    {
        assert(t@.subrange(0, n as int).drop_last() =~= t@.subrange(0, n - 1));
        n = n - 1;
    }
    let mut r = string_from(&t, 0, n);
    push_str(&mut r, "/chat/completions");
    r
}

/// Whether requests carry a bearer token: exactly when the key is not empty.
pub fn sends_bearer(api_key: &str) -> (r: bool)
    ensures
        r == (api_key@.len() > 0),
{
    !api_key.is_empty()
}

/// The error for a reply with a failure status: the provider, the status
/// and the reply's text.
pub fn status_error_message(display_name: &str, status: &str, body: &str) -> (r: String)
    ensures
        r@ == display_name@ + " returned "@ + status@ + ": "@ + body@,
{
    let mut r = owned(display_name);
    push_str(&mut r, " returned ");
    push_str(&mut r, status);
    push_str(&mut r, ": ");
    push_str(&mut r, body);
    r
}

/// The error for a reply without any choice.
pub fn no_choices_message(display_name: &str) -> (r: String)
    ensures
        r@ == display_name@ + " returned no choices"@,
{
    let mut r = owned(display_name);
    push_str(&mut r, " returned no choices");
    r
}

} // verus!
