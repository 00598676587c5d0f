//! The ChatGPT web page, driven through a Chromium browser.
//!
//! The conversation is flattened into one prompt, typed into the page and
//! submitted; the answer is read back through the clipboard.
use vstd::prelude::*;

use std::path::PathBuf;

use crate::backends::{Message, Role};
use crate::text::{owned, push_str, trim, trimmed};

verus! {

/// A filesystem path (`std::path::PathBuf`), carried as it is.
#[verifier::external_type_specification]
#[verifier::external_body]
pub struct ExPathBuf(PathBuf);

/// The browser to launch and the profile it keeps its session in.
#[derive(Debug)]
pub struct ChatbangBrowserConfig {
    pub browser_exe: String,
    pub profile_dir: PathBuf,
    pub headless: bool,
}

impl ChatbangBrowserConfig {
    /// A visible (not headless) browser session.
    pub fn visible(browser_exe: String, profile_dir: PathBuf) -> (r: ChatbangBrowserConfig)
        ensures
            r.browser_exe == browser_exe,
            r.profile_dir == profile_dir,
            !r.headless,
    {
        ChatbangBrowserConfig { browser_exe, profile_dir, headless: false }
    }
}

/// The page address.
pub const CHATGPT_URL: &'static str = "https://chatgpt.com";

/// Script that resolves to the clipboard's text, or to an empty string.
pub const JS_READ_CLIPBOARD: &'static str = "\n    new Promise((resolve) => {\n        window.navigator.clipboard.readText()\n            .then(t => resolve(t))\n            .catch(() => resolve(\"\"));\n    })\n";

/// Script that clicks the copy button of the last answer and says whether
/// there was one.
pub fn js_click_last_copy_button() -> (r: &'static str)
    ensures
        r@ == "(() => {\n        const buttons = document.querySelectorAll('button[data-testid=\"copy-turn-action-button\"]');\n        if (buttons.length > 0) { buttons[buttons.length - 1].click(); return true; }\n        return false;\n    })()"@,
{
    "(() => {\n        const buttons = document.querySelectorAll('button[data-testid=\"copy-turn-action-button\"]');\n        if (buttons.length > 0) { buttons[buttons.length - 1].click(); return true; }\n        return false;\n    })()"
}

/// How one message appears in the flattened prompt.
pub open spec fn message_block(m: Message) -> Seq<char> {
    match m.role {
        Role::System => "[SYSTEM]\n"@ + m.content@ + "\n[/SYSTEM]\n\n"@,
        Role::User => m.content@ + "\n\n"@,
        Role::Assistant => "[assistant] "@ + m.content@ + "\n\n"@,
        Role::Tool => "<tool_result>\n"@ + m.content@ + "\n</tool_result>\n\n"@,
    }
}

/// The blocks of all messages, in order.
pub open spec fn message_blocks(ms: Seq<Message>) -> Seq<char>
    decreases ms.len(),
{
    if ms.len() == 0 {
        seq![]
    } else {
        message_blocks(ms.drop_last()) + message_block(ms.last())
    }
}

/// The prompt typed into the page for a conversation: the blocks of its
/// messages, trimmed.
pub open spec fn flattened(ms: Seq<Message>) -> Seq<char> {
    trim(message_blocks(ms))
}

/// Flattens a conversation into the single prompt typed into the page.
pub fn flatten_conversation(messages: &[Message]) -> (r: String)
    ensures
        r@ == flattened(messages@),
{
    let mut text = String::new();
    let mut i: usize = 0;
    while i < messages.len()
        invariant
            i <= messages@.len(),
            text@ == message_blocks(messages@.take(i as int)),
        decreases messages@.len() - i,
    {
        let m = &messages[i];
        match m.role {
            Role::System => {
                push_str(&mut text, "[SYSTEM]\n");
                push_str(&mut text, m.content.as_str());
                push_str(&mut text, "\n[/SYSTEM]\n\n");
            },
            Role::User => {
                push_str(&mut text, m.content.as_str());
                push_str(&mut text, "\n\n");
            },
            Role::Assistant => {
                push_str(&mut text, "[assistant] ");
                push_str(&mut text, m.content.as_str());
                push_str(&mut text, "\n\n");
            },
            Role::Tool => {
                push_str(&mut text, "<tool_result>\n");
                push_str(&mut text, m.content.as_str());
                push_str(&mut text, "\n</tool_result>\n\n");
            },
        }
        assert(messages@.take(i + 1).drop_last() =~= messages@.take(i as int));
        assert(text@ =~= message_blocks(messages@.take(i + 1)));
        i = i + 1;
    }
    assert(messages@.take(messages@.len() as int) =~= messages@);
    trimmed(text.as_str())
}

/// Whether the clipboard holds the answer: it is not empty and is not the
/// prompt itself.
pub fn is_answer(clipboard: &str, prompt: &str) -> (r: bool)
    ensures
        r == (clipboard@.len() > 0 && clipboard@ != prompt@),
{
    !clipboard.is_empty() && !crate::text::text_eq(clipboard, prompt)
}

/// Seconds to wait for an answer before giving up.
pub const ANSWER_TIMEOUT_SECS: u64 = 120;

/// Milliseconds between two attempts to copy the last answer.
pub const POLL_INTERVAL_MS: u64 = 1500;

/// Milliseconds allowed for a copied answer to reach the clipboard.
pub const CLIPBOARD_SETTLE_MS: u64 = 400;

/// The error when no answer came within the time budget.
pub fn timed_out_message() -> (r: &'static str)
    ensures
        r@ == "Timed out waiting for ChatGPT response."@,
{
    "Timed out waiting for ChatGPT response."
}

} // verus!
