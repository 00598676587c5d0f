//! The decisions of the agentic tool-use loop.
//!
//! Each user line starts a turn. A turn sends the conversation to the
//! backend; when the reply holds tool calls (and the agent is enabled), the
//! tools run and their results go back to the backend as one message; the
//! turn ends with a reply that holds no tool call, on a backend error, or
//! when the turn has used its allowance of backend calls.
use vstd::prelude::*;

use crate::backends::{Message, Role};
use vstd::string::StringSliceAdditionalSpecFns;
use crate::text::{
    char_index, chars_of, decimal, owned, push_decimal, push_str, string_from, trim, trimmed,
};
use crate::tools::error::{kind_of, user_message_of, ToolError};

verus! {

/// Configuration for the chat loop.
#[derive(Debug, Clone, Copy)]
pub struct AgentConfig {
    /// When true, tool calls in replies are executed; when false, replies
    /// are shown verbatim.
    pub agent: bool,
    /// The most backend calls one user turn may make.
    pub max_iterations: usize,
}

impl Default for AgentConfig {
    /// The agent enabled, with ten backend calls per turn.
    fn default() -> (r: AgentConfig)
        ensures
            r.agent,
            r.max_iterations == 10,
    {
        AgentConfig { agent: true, max_iterations: 10 }
    }
}

/// The text of a user line, trimmed; `None` for a blank line, which starts
/// no turn.
pub fn prepare_input(line: &str) -> (r: Option<String>)
    ensures
        match r {
            Some(s) => s@ == trim(line@) && s@.len() > 0,
            None => trim(line@).len() == 0,
        },
{
    let s = trimmed(line);
    if s.as_str().is_empty() {
        None
    } else {
        Some(s)
    }
}

/// The content of the user message that opens a turn.
pub open spec fn opening_text(cfg: AgentConfig, system_prompt: Option<Seq<char>>, raw: Seq<char>, first: bool) -> Seq<char> {
    if !first {
        raw
    } else {
        match system_prompt {
            Some(p) => p + raw,
            None => if cfg.agent {
                raw
            } else {
                raw + " (Make an answer in less than 5 lines.)"@
            },
        }
    }
}

/// The content of the user message that opens a turn: on the first turn,
/// the system prompt (when there is one) before the line, or, in plain chat,
/// the line with a request for a short answer; later, the line alone.
pub fn opening_message(cfg: &AgentConfig, system_prompt: Option<&str>, raw: &str, first: bool) -> (r:
    String)
    ensures
        r@ == opening_text(
            *cfg,
            match system_prompt {
                Some(p) => Some(p@),
                None => None,
            },
            raw@,
            first,
        ),
{
    if !first {
        return owned(raw);
    }
    match system_prompt {
        Some(p) => {
            let mut r = owned(p);
            push_str(&mut r, raw);
            r
        },
        None => {
            let mut r = owned(raw);
            if !cfg.agent {
                push_str(&mut r, " (Make an answer in less than 5 lines.)");
            }
            r
        },
    }
}

/// One user turn: the conversation so far and the backend calls made.
#[derive(Debug)]
pub struct Turn {
    pub messages: Vec<Message>,
    pub calls: usize,
}

impl Turn {
    /// A turn opened by a user message.
    pub fn start(content: String) -> (r: Turn)
        ensures
            r.messages@.len() == 1,
            r.messages@[0].role == Role::User,
            r.messages@[0].content == content,
            r.calls == 0,
    {
        let mut messages: Vec<Message> = Vec::new();
        messages.push(Message::user(content));
        Turn { messages, calls: 0 }
    }

    /// Asks for one more backend call. Granted while fewer than
    /// `max_iterations` calls were made, and then counted; refused after
    /// that, which ends the turn.
    pub fn begin_request(&mut self, cfg: &AgentConfig) -> (r: bool)
        ensures
            r == (old(self).calls < cfg.max_iterations),
            final(self).calls == if old(self).calls < cfg.max_iterations {
                old(self).calls + 1
            } else {
                old(self).calls as int
            },
            r ==> final(self).calls == old(self).calls + 1,
            !r ==> final(self).calls == old(self).calls,
            final(self).messages == old(self).messages,
            old(self).calls <= cfg.max_iterations ==> final(self).calls <= cfg.max_iterations,
    {
        if self.calls < cfg.max_iterations {
            self.calls = self.calls + 1;
            true
        } else {
            false
        }
    }

    /// Records the backend's reply in the conversation.
    pub fn record_reply(&mut self, response: String)
        ensures
            final(self).messages@ == old(self).messages@.push(Message::assistant_spec(response)),
            final(self).calls == old(self).calls,
    {
        self.messages.push(Message::assistant(response));
    }

    /// Records the results of the tools run for a reply, as one tool
    /// message.
    pub fn record_tool_results(&mut self, results: &Vec<(String, String)>)
        ensures
            final(self).messages@.len() == old(self).messages@.len() + 1,
            final(self).messages@.drop_last() == old(self).messages@,
            final(self).messages@.last().role == Role::Tool,
            final(self).messages@.last().content@ == results_text(results@),
            final(self).calls == old(self).calls,
    {
        let text = tool_results_text(results);
        self.messages.push(Message::tool(text));
        assert(self.messages@.drop_last() =~= old(self).messages@);
    }
}

/// The backend calls a turn has made after `n` requests, each granted by
/// `Turn::begin_request` while fewer than `max` calls were made.
pub open spec fn granted_calls(max: nat, n: nat) -> nat
    decreases n,
{
    if n == 0 {
        0
    } else {
        let g = granted_calls(max, (n - 1) as nat);
        if g < max {
            g + 1
        } else {
            g
        }
    }
}

/// Law: a turn that asks `n` times for a backend call makes `min(n, max)`
/// calls: every request is granted until `max` calls were made, and none
/// after.
pub proof fn lemma_turn_call_bound(max: nat, n: nat)
    ensures
        granted_calls(max, n) == if n <= max {
            n
        } else {
            max
        },
    decreases n,
{
    if n > 0 {
        lemma_turn_call_bound(max, (n - 1) as nat);
    }
}

/// Law: in plain chat (the agent disabled) every reply is shown and ends
/// the turn, whatever it holds, so a turn makes at most one backend call;
/// with the agent enabled, a reply without tool calls ends the turn.
pub proof fn lemma_reply_ends_turn(cfg: AgentConfig, calls_found: usize)
    ensures
        !cfg.agent ==> reply_action_of(cfg, calls_found) == ReplyAction::Show,
        calls_found == 0 ==> reply_action_of(cfg, calls_found) == ReplyAction::Show,
{
}

/// Whether the backend call that got `outcome` ends its turn: a failed
/// call (`None`) does, and so does a reply (with this many tool calls) that
/// is shown rather than acted on.
pub open spec fn ends_turn(cfg: AgentConfig, outcome: Option<usize>) -> bool {
    match outcome {
        None => true,
        Some(n) => reply_action_of(cfg, n) == ReplyAction::Show,
    }
}

/// The backend calls a turn makes, once `made` calls were made without
/// ending it, when its calls get the outcomes `outcomes` in order: a call is
/// made while fewer than `max_iterations` were (as `Turn::begin_request`
/// grants), and the turn ends on an outcome that ends it (as
/// `reply_action` decides). Calls past the end of `outcomes` end the turn.
pub open spec fn turn_calls(cfg: AgentConfig, outcomes: Seq<Option<usize>>, made: nat) -> nat
    decreases cfg.max_iterations - made,
{
    if made >= cfg.max_iterations {
        made
    } else if made >= outcomes.len() || ends_turn(cfg, outcomes[made as int]) {
        made + 1
    } else {
        turn_calls(cfg, outcomes, made + 1)
    }
}

/// The 1-based position of the first outcome, from position `i` on, that
/// ends a turn (one past the end of `outcomes` when none does).
pub open spec fn first_ending(cfg: AgentConfig, outcomes: Seq<Option<usize>>, i: nat) -> nat
    decreases outcomes.len() - i,
{
    if i >= outcomes.len() || ends_turn(cfg, outcomes[i as int]) {
        i + 1
    } else {
        first_ending(cfg, outcomes, i + 1)
    }
}

/// Law: a turn makes `min(max_iterations, j)` backend calls, where `j` is
/// the position of the first call whose outcome ends it; in plain chat
/// (the agent disabled) that is one call, when any is allowed.
pub proof fn lemma_turn_calls(cfg: AgentConfig, outcomes: Seq<Option<usize>>)
    ensures
        turn_calls(cfg, outcomes, 0) == if first_ending(cfg, outcomes, 0) <= cfg.max_iterations {
            first_ending(cfg, outcomes, 0)
        } else {
            cfg.max_iterations as nat
        },
        !cfg.agent ==> turn_calls(cfg, outcomes, 0) == if cfg.max_iterations >= 1 {
            1nat
        } else {
            0nat
        },
{
    lemma_turn_calls_from(cfg, outcomes, 0);
}

/// `lemma_turn_calls`, from any number of calls made.
proof fn lemma_turn_calls_from(cfg: AgentConfig, outcomes: Seq<Option<usize>>, made: nat)
    ensures
        turn_calls(cfg, outcomes, made) == if made >= cfg.max_iterations {
            made
        } else if first_ending(cfg, outcomes, made) <= cfg.max_iterations {
            first_ending(cfg, outcomes, made)
        } else {
            cfg.max_iterations as nat
        },
    decreases cfg.max_iterations - made,
{
    if made < cfg.max_iterations && made < outcomes.len() && !ends_turn(cfg, outcomes[made as int]) {
        lemma_turn_calls_from(cfg, outcomes, made + 1);
        lemma_first_ending_after(cfg, outcomes, made + 1);
    }
}

/// The first ending outcome from `i` on lies after `i`.
proof fn lemma_first_ending_after(cfg: AgentConfig, outcomes: Seq<Option<usize>>, i: nat)
    ensures
        first_ending(cfg, outcomes, i) > i,
    decreases outcomes.len() - i,
{
    if i < outcomes.len() && !ends_turn(cfg, outcomes[i as int]) {
        lemma_first_ending_after(cfg, outcomes, i + 1);
    }
}

/// The backend calls a session makes for the input lines `lines`, the
/// calls of the turn for line `i` getting the outcomes `outcomes[i]`: a
/// blank line starts no turn (as `prepare_input` decides), any other line
/// one turn.
pub open spec fn session_calls(
    cfg: AgentConfig,
    lines: Seq<Seq<char>>,
    outcomes: Seq<Seq<Option<usize>>>,
) -> nat
    decreases lines.len(),
{
    if lines.len() == 0 {
        0
    } else {
        let last = (lines.len() - 1) as int;
        let here = if trim(lines[last]).len() == 0 {
            0nat
        } else {
            turn_calls(cfg, outcomes[last], 0)
        };
        session_calls(cfg, lines.drop_last(), outcomes) + here
    }
}

/// The number of lines that are not blank.
pub open spec fn non_blank_lines(lines: Seq<Seq<char>>) -> nat
    decreases lines.len(),
{
    if lines.len() == 0 {
        0
    } else {
        non_blank_lines(lines.drop_last()) + if trim(lines.last()).len() == 0 {
            0nat
        } else {
            1nat
        }
    }
}

/// Law: in plain chat (the agent disabled, with at least one call allowed
/// per turn) a session makes exactly one backend call per non-blank line,
/// whatever the backend answers, and none for blank lines.
pub proof fn lemma_plain_chat_one_call_per_line(
    cfg: AgentConfig,
    lines: Seq<Seq<char>>,
    outcomes: Seq<Seq<Option<usize>>>,
)
    requires
        !cfg.agent,
        cfg.max_iterations >= 1,
    ensures
        session_calls(cfg, lines, outcomes) == non_blank_lines(lines),
    decreases lines.len(),
{
    if lines.len() > 0 {
        lemma_turn_calls(cfg, outcomes[lines.len() - 1]);
        lemma_plain_chat_one_call_per_line(cfg, lines.drop_last(), outcomes);
    }
}

impl Message {
    /// The assistant message with this content.
    pub open spec fn assistant_spec(content: String) -> Message {
        Message { role: Role::Assistant, content }
    }
}

/// What to do with a reply.
#[derive(Debug, Clone, Copy, PartialEq, Eq, Structural)]
pub enum ReplyAction {
    /// Show the reply and end the turn.
    Show,
    /// Run the tool calls it holds and send their results back.
    RunTools,
}

/// What to do with a reply that holds `calls_found` tool calls.
pub open spec fn reply_action_of(cfg: AgentConfig, calls_found: usize) -> ReplyAction {
    if cfg.agent && calls_found > 0 {
        ReplyAction::RunTools
    } else {
        ReplyAction::Show
    }
}

/// Law: with the agent enabled, a reply holding any tool call is acted on
/// (its calls are run and their results sent back); a reply without tool
/// calls, or any reply in plain chat, is shown and ends the turn.
pub proof fn lemma_reply_action_runs_calls(cfg: AgentConfig, calls_found: usize)
    ensures
        cfg.agent && calls_found >= 1 ==> reply_action_of(cfg, calls_found) == ReplyAction::RunTools,
        calls_found == 0 ==> reply_action_of(cfg, calls_found) == ReplyAction::Show,
        !cfg.agent ==> reply_action_of(cfg, calls_found) == ReplyAction::Show,
{
}

/// What to do with a reply that holds `calls_found` tool calls: run them
/// only when the agent is enabled and there is at least one.
pub fn reply_action(cfg: &AgentConfig, calls_found: usize) -> (r: ReplyAction)
    ensures
        r == reply_action_of(*cfg, calls_found),
{
    if cfg.agent && calls_found > 0 {
        ReplyAction::RunTools
    } else {
        ReplyAction::Show
    }
}

/// The block that returns one tool's output to the model.
pub open spec fn result_block(name: Seq<char>, output: Seq<char>) -> Seq<char> {
    "<tool_result name=\""@ + name + "\">\n"@ + output + "\n</tool_result>\n"@
}

/// The blocks of all results (tool name, output), in order.
pub open spec fn results_text(results: Seq<(String, String)>) -> Seq<char>
    decreases results.len(),
{
    if results.len() == 0 {
        seq![]
    } else {
        results_text(results.drop_last()) + result_block(
            results.last().0@,
            results.last().1@,
        )
    }
}

/// The message text that returns tool results (tool name, output) to the
/// model.
pub fn tool_results_text(results: &Vec<(String, String)>) -> (r: String)
    ensures
        r@ == results_text(results@),
{
    let mut r = String::new();
    let mut i: usize = 0;
    while i < results.len()
        invariant
            i <= results@.len(),
            r@ == results_text(results@.take(i as int)),
        decreases results@.len() - i,
    {
        push_str(&mut r, "<tool_result name=\"");
        push_str(&mut r, results[i].0.as_str());
        push_str(&mut r, "\">\n");
        push_str(&mut r, results[i].1.as_str());
        push_str(&mut r, "\n</tool_result>\n");
        assert(results@.take(i + 1).drop_last() =~= results@.take(i as int));
        assert(r@ =~= results_text(results@.take(i + 1)));
        i = i + 1;
    }
    assert(results@.take(results@.len() as int) =~= results@);
    r
}

/// The output of a tool call as the model sees it: the tool's output, or
/// `[error:KIND] MESSAGE` with the error's kind and user-facing message.
pub open spec fn report_text(result: Result<String, ToolError>) -> Seq<char> {
    match result {
        Ok(s) => s@,
        Err(e) => "[error:"@ + kind_of(e) + "] "@ + user_message_of(e),
    }
}

/// The output of a tool call as the model sees it.
pub fn tool_call_report(result: Result<String, ToolError>) -> (r: String)
    ensures
        r@ == report_text(result),
{
    match result {
        Ok(s) => s,
        Err(e) => {
            let mut r = owned("[error:");
            push_str(&mut r, e.kind());
            push_str(&mut r, "] ");
            let m = e.user_message();
            push_str(&mut r, m.as_str());
            r
        },
    }
}

/// The notice when a turn has used all its backend calls.
pub fn max_iterations_notice(max: usize) -> (r: String)
    ensures
        r@ == "[agent] hit max iterations ("@ + decimal(max as nat) + "), stopping."@,
{
    let mut r = owned("[agent] hit max iterations (");
    push_decimal(&mut r, max as u64);
    push_str(&mut r, "), stopping.");
    r
}

/// The notice after running the tools of a reply.
pub fn executed_notice(count: usize) -> (r: String)
    ensures
        r@ == "[agent] executed "@ + decimal(count as nat) + " tool(s), sending results back...\n"@,
{
    let mut r = owned("[agent] executed ");
    push_decimal(&mut r, count as u64);
    push_str(&mut r, " tool(s), sending results back...\n");
    r
}

/// Names joined with `, `.
pub open spec fn comma_joined(names: Seq<Seq<char>>) -> Seq<char>
    decreases names.len(),
{
    if names.len() == 0 {
        seq![]
    } else if names.len() == 1 {
        names[0]
    } else {
        comma_joined(names.drop_last()) + ", "@ + names.last()
    }
}

/// The banner shown when the agent is enabled, naming its tools.
pub fn agent_banner(names: &Vec<&str>) -> (r: String)
    ensures
        r@ == "Agent mode ON  —  tools: "@ + comma_joined(names@.map_values(|s: &str| s@)),
{
    let ghost ns = names@.map_values(|s: &str| s@);
    let mut r = owned("Agent mode ON  —  tools: ");
    let ghost head = r@;
    let mut i: usize = 0;
    while i < names.len()
        invariant
            i <= names@.len(),
            ns == names@.map_values(|s: &str| s@),
            r@ == head + comma_joined(ns.take(i as int)),
        decreases names@.len() - i,
    {
        assert(ns.take(i + 1).drop_last() =~= ns.take(i as int));
        if i > 0 {
            push_str(&mut r, ", ");
        } else {
            assert(ns.take(0).len() == 0);
        }
        push_str(&mut r, names[i]);
        assert(r@ =~= head + comma_joined(ns.take(i + 1)));
        i = i + 1;
    }
    assert(ns.take(ns.len() as int) =~= ns);
    r
}

/// The first line of a text, as `str::lines` gives it: up to the first
/// `\n` (without a `\r` just before it), or the whole text; empty for an
/// empty text.
pub open spec fn first_line(s: Seq<char>) -> Seq<char> {
    match char_index(s, '\n') {
        None => s,
        Some(i) => {
            let l = s.take(i);
            if l.len() > 0 && l.last() == '\r' {
                l.drop_last()
            } else {
                l
            }
        },
    }
}

/// A one-line preview of a tool's output for the log: its first line, cut
/// to its first 77 bytes followed by `...` when longer than 80 bytes.
pub fn summarize(s: &str) -> (r: String)
    requires
        vstd::utf8::encode_utf8(first_line(s@)).len() <= usize::MAX,
        vstd::utf8::encode_utf8(first_line(s@)).len() > 80 ==> vstd::utf8::is_char_boundary(
            vstd::utf8::encode_utf8(first_line(s@)),
            77,
        ),
    ensures
        vstd::utf8::encode_utf8(first_line(s@)).len() <= 80 ==> r@ == first_line(s@),
        vstd::utf8::encode_utf8(first_line(s@)).len() > 80 ==> exists|p: Seq<char>|
            vstd::utf8::encode_utf8(p) == vstd::utf8::encode_utf8(first_line(s@)).subrange(0, 77)
                && r@ == p + "..."@,
{
    let t = chars_of(s);
    let j = crate::config::find_char(&t, '\n', 0, t.len());
    let end = if j < t.len() && j > 0 && t[j - 1] == '\r' {
        j - 1
    } else {
        j
    };
    proof {
        assert(t@.subrange(0, t@.len() as int) =~= t@);
        if j < t@.len() {
            assert(t@.take(j as int) =~= t@.subrange(0, j as int));
            assert(first_line(s@) =~= t@.subrange(0, end as int));
        } else {
            assert(first_line(s@) =~= t@.subrange(0, end as int));
        }
    }
    let line = string_from(&t, 0, end);
    let l = line.as_str();
    if l.len() > 80 {
        let (head, _) = l.split_at(77);
        let mut r = owned(head);
        push_str(&mut r, "...");
        proof {
            assert(vstd::utf8::encode_utf8(head@) == head.spec_bytes());
        }
        r
    } else {
        line
    }
}

} // verus!
