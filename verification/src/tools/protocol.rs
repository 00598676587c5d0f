//! The tool-call protocol: how a model's reply carries tool calls.
//!
//! A reply may hold any number of envelopes, in one of three shapes:
//!
//!  1. `<tool_call>{...}</tool_call>`;
//!  2. a fenced block opened by three backticks and `tool_call`, closed by
//!     three backticks;
//!  3. a fenced block opened by three backticks and `json`, closed by three
//!     backticks, whose body names the tool under the key `tool`.
//!
//! Each shape is scanned over the whole reply, left to right: an envelope
//! starts at the first opening delimiter not yet consumed and ends at the
//! first closing delimiter after it; scanning resumes after that closing
//! delimiter, and stops at an opening delimiter that is never closed. The
//! body is the text between the delimiters with white space trimmed at both
//! ends; empty bodies are skipped. All envelopes of shape 1 come first, then
//! those of shape 2, then those of shape 3.
//!
//! Each body is then decoded as JSON and read into a `ToolCall`, or into a
//! `ParseError` that says why it could not be. A block of shape 3 is an
//! envelope only when its body identifies itself as a tool call: a JSON
//! object with a `tool` (or `name`) key. Any other `json` block is ordinary
//! content of the reply, and yields neither a call nor an error.
use vstd::prelude::*;

use crate::json::{first_present, lookup, Json};
use crate::text::{owned, push_str, chars_of, find_from, first_at, lemma_first_at, string_from, trim, trim_bounds};
use crate::tools::error::ToolError;

verus! {

/// Which key an envelope body is expected to name its tool with.
#[derive(Debug, Clone, Copy, PartialEq, Eq, Structural)]
pub enum EnvelopeStyle {
    /// Body shape: `{"name": "...", "args": {...}}`.
    NameKey,
    /// Body shape: `{"tool": "...", "args": {...}}` or with `parameters`.
    ToolKey,
}

/// The trimmed body of one envelope found in a reply, with its style.
#[derive(Debug)]
pub struct Envelope {
    pub body: String,
    pub style: EnvelopeStyle,
}

/// A single tool call extracted from a model response.
#[derive(Debug)]
pub struct ToolCall {
    pub name: String,
    pub args: Json,
}

/// Why an envelope could not be read as a tool call.
#[derive(Debug, Clone, PartialEq, Eq)]
pub enum ParseError {
    /// The body could not be decoded as a JSON object.
    MalformedJson { raw: String, reason: String },
    /// The JSON decoded but does not name a tool with a string.
    MissingName { raw: String },
    /// The block delimiter was opened but never closed.
    Unterminated { raw: String },
}

/// The calls found in a reply, and the envelopes that could not be read.
#[derive(Debug)]
pub struct ParsedToolCalls {
    pub calls: Vec<ToolCall>,
    pub errors: Vec<ParseError>,
}

pub open spec fn xml_open() -> Seq<char> {
    "<tool_call>"@
}

pub open spec fn xml_close() -> Seq<char> {
    "</tool_call>"@
}

pub open spec fn fence_tool_open() -> Seq<char> {
    "```tool_call"@
}

pub open spec fn fence_json_open() -> Seq<char> {
    "```json"@
}

pub open spec fn fence_close() -> Seq<char> {
    "```"@
}

/// The trimmed, non-empty bodies of the envelopes delimited by `open` and
/// `close` in `t`, scanning from position `i`.
pub open spec fn bodies(t: Seq<char>, open: Seq<char>, close: Seq<char>, i: int) -> Seq<
    Seq<char>,
>
    decreases t.len() - i,
{
    if open.len() == 0 || i < 0 || i > t.len() {
        seq![]
    } else {
        match first_at(t, open, i) {
            None => seq![],
            Some(p) => match first_at(t, close, p + open.len()) {
                None => seq![],
                Some(c) => {
                    proof {
                        lemma_first_at(t, open, i);
                        lemma_first_at(t, close, p + open.len());
                    }
                    let body = trim(t.subrange(p + open.len(), c));
                    let rest = bodies(t, open, close, c + close.len());
                    if body.len() == 0 {
                        rest
                    } else {
                        seq![body] + rest
                    }
                },
            },
        }
    }
}

/// The bodies `bs` tagged with a style.
pub open spec fn tagged(bs: Seq<Seq<char>>, style: EnvelopeStyle) -> Seq<(Seq<char>, EnvelopeStyle)> {
    bs.map_values(|b: Seq<char>| (b, style))
}

/// All envelopes of a reply, in the order they are reported.
pub open spec fn envelopes(t: Seq<char>) -> Seq<(Seq<char>, EnvelopeStyle)> {
    tagged(bodies(t, xml_open(), xml_close(), 0), EnvelopeStyle::NameKey) + tagged(
        bodies(t, fence_tool_open(), fence_close(), 0),
        EnvelopeStyle::NameKey,
    ) + tagged(bodies(t, fence_json_open(), fence_close(), 0), EnvelopeStyle::ToolKey)
}

/// The view of a found envelope: its body and style.
pub open spec fn envelope_view(e: Envelope) -> (Seq<char>, EnvelopeStyle) {
    (e.body@, e.style)
}

/// Appends the envelopes delimited by `open` and `close` in `t`.
fn scan_delimited(
    t: &Vec<char>,
    open: &Vec<char>,
    close: &Vec<char>,
    style: EnvelopeStyle,
    out: &mut Vec<Envelope>,
)
    requires
        open@.len() > 0,
    ensures
        final(out)@.map_values(|e: Envelope| envelope_view(e)) == old(out)@.map_values(
            |e: Envelope| envelope_view(e),
        ) + tagged(bodies(t@, open@, close@, 0), style),
{
    let ghost start = out@.map_values(|e: Envelope| envelope_view(e));
    let ghost mut found: Seq<Seq<char>> = seq![];
    let mut i: usize = 0;
    while i <= t.len()
        invariant_except_break
            i <= t@.len(),
            open@.len() > 0,
            bodies(t@, open@, close@, 0) == found + bodies(t@, open@, close@, i as int),
            out@.map_values(|e: Envelope| envelope_view(e)) == start + tagged(found, style),
        ensures
            bodies(t@, open@, close@, 0) == found,
            out@.map_values(|e: Envelope| envelope_view(e)) == start + tagged(found, style),
        decreases t@.len() + 1 - i,
    {
        proof {
            lemma_first_at(t@, open@, i as int);
        }
        match find_from(t, open, i) {
            None => {
                assert(bodies(t@, open@, close@, i as int) =~= seq![]);
                assert(found + seq![] =~= found);
                break;
            },
            Some(p) => {
                let e = p + open.len();
                proof {
                    lemma_first_at(t@, close@, e as int);
                }
                match find_from(t, close, e) {
                    None => {
                        assert(bodies(t@, open@, close@, i as int) =~= seq![]);
                        assert(found + seq![] =~= found);
                        break;
                    },
                    Some(c) => {
                        let ghost rest = bodies(t@, open@, close@, c + close@.len());
                        let (a, b) = trim_bounds(t, e, c);
                        let ghost body = trim(t@.subrange(e as int, c as int));
                        assert(bodies(t@, open@, close@, i as int) == if body.len() == 0 {
                            rest
                        } else {
                            seq![body] + rest
                        });
                        if a < b {
                            let s = string_from(t, a, b);
                            let ghost before = out@;
                            out.push(Envelope { body: s, style });
                            proof {
                                assert(out@.map_values(|e: Envelope| envelope_view(e)) =~= before.map_values(
                                    |e: Envelope| envelope_view(e),
                                ).push((body, style)));
                                assert(tagged(found.push(body), style) =~= tagged(found, style).push(
                                    (body, style),
                                ));
                                assert(found + (seq![body] + rest) =~= found.push(body) + rest);
                                found = found.push(body);
                            }
                        } else {
                            assert(body.len() == 0);
                        }
                        i = c + close.len();
                    },
                }
            },
        }
    }
    assert(start + tagged(found, style) == start + tagged(bodies(t@, open@, close@, 0), style));
}

/// Finds the envelopes of a reply: their trimmed, non-empty bodies and
/// their styles, in the order described in the module documentation.
pub fn scan_envelopes(text: &str) -> (r: Vec<Envelope>)
    ensures
        r@.map_values(|e: Envelope| envelope_view(e)) == envelopes(text@),
{
    let t = chars_of(text);
    let xo = chars_of("<tool_call>");
    let xc = chars_of("</tool_call>");
    let fto = chars_of("```tool_call");
    let fjo = chars_of("```json");
    let fc = chars_of("```");
    proof {
        reveal_strlit("<tool_call>");
        reveal_strlit("```tool_call");
        reveal_strlit("```json");
    }
    let mut out: Vec<Envelope> = Vec::new();
    assert(out@.map_values(|e: Envelope| envelope_view(e)) =~= seq![]);
    scan_delimited(&t, &xo, &xc, EnvelopeStyle::NameKey, &mut out);
    scan_delimited(&t, &fto, &fc, EnvelopeStyle::NameKey, &mut out);
    scan_delimited(&t, &fjo, &fc, EnvelopeStyle::ToolKey, &mut out);
    assert(seq![] + tagged(bodies(t@, xo@, xc@, 0), EnvelopeStyle::NameKey) =~= tagged(
        bodies(t@, xo@, xc@, 0),
        EnvelopeStyle::NameKey,
    ));
    out
}

/// What one envelope amounts to.
pub enum Verdict {
    /// A call of the tool `name`; `args` is `None` when the body gives no
    /// arguments, which then default to an empty object.
    Call { name: Seq<char>, args: Option<Json> },
    /// The body is not a JSON object.
    Malformed { raw: Seq<char>, reason: Seq<char> },
    /// The body names no tool with a string.
    MissingName { raw: Seq<char> },
    /// A `json` block that does not identify itself as a tool call: not an
    /// envelope at all.
    Ignored,
}

/// The keys, in order, under which a body of the given style names its tool;
/// the first present key decides.
pub open spec fn name_keys(style: EnvelopeStyle) -> Seq<Seq<char>> {
    match style {
        EnvelopeStyle::NameKey => seq!["name"@, "name"@, "tool"@],
        EnvelopeStyle::ToolKey => seq!["tool"@, "name"@, "tool"@],
    }
}

/// The keys, in order, under which a body gives the call's arguments.
pub open spec fn args_keys() -> Seq<Seq<char>> {
    seq!["args"@, "parameters"@, "input"@]
}

/// The message for a body that decodes to something other than an object.
pub open spec fn not_object_reason() -> Seq<char> {
    "expected JSON object at top level"@
}

/// What decoding a body gave, with the decoder's message as text.
pub open spec fn decoded_view(parsed: Result<Json, String>) -> Result<Json, Seq<char>> {
    match parsed {
        Ok(j) => Ok(j),
        Err(m) => Err(m@),
    }
}

/// What an envelope with body `raw` and style `style` amounts to, given what
/// decoding the body as JSON gave (a value, or the decoder's message).
pub open spec fn verdict(raw: Seq<char>, style: EnvelopeStyle, parsed: Result<Json, Seq<char>>) -> Verdict {
    match parsed {
        Ok(Json::Object(fields)) => match first_present(fields@, name_keys(style)) {
            Some(Json::Str(n)) => Verdict::Call {
                name: n@,
                args: first_present(fields@, args_keys()),
            },
            Some(_) => Verdict::MissingName { raw },
            None => if style == EnvelopeStyle::ToolKey {
                Verdict::Ignored
            } else {
                Verdict::MissingName { raw }
            },
        },
        Err(reason) => if style == EnvelopeStyle::ToolKey {
            Verdict::Ignored
        } else {
            Verdict::Malformed { raw, reason }
        },
        Ok(_) => if style == EnvelopeStyle::ToolKey {
            Verdict::Ignored
        } else {
            Verdict::Malformed { raw, reason: not_object_reason() }
        },
    }
}

/// `c` is the call `name` with arguments `args` (an empty object for `None`).
pub open spec fn call_matches(c: ToolCall, name: Seq<char>, args: Option<Json>) -> bool {
    &&& c.name@ == name
    &&& match args {
        Some(v) => c.args == v,
        None => c.args matches Json::Object(f) && f@.len() == 0,
    }
}

/// `e` reports the failed verdict `v`.
pub open spec fn error_matches(e: ParseError, v: Verdict) -> bool {
    match v {
        Verdict::Malformed { raw, reason } => e matches ParseError::MalformedJson {
            raw: r,
            reason: m,
        } && r@ == raw && m@ == reason,
        Verdict::MissingName { raw } => e matches ParseError::MissingName { raw: r } && r@ == raw,
        _ => false,
    }
}

/// `r` is the outcome that the verdict `v` calls for: nothing for a block
/// that is not an envelope.
pub open spec fn outcome_matches(r: Option<Result<ToolCall, ParseError>>, v: Verdict) -> bool {
    match v {
        Verdict::Call { name, args } => r matches Some(Ok(c)) && call_matches(c, name, args),
        Verdict::Ignored => r is None,
        _ => r matches Some(Err(e)) && error_matches(e, v),
    }
}

/// The index of the first member of `fields` named `key`.
fn member_index(fields: &Vec<(String, Json)>, key: &str) -> (r: Option<usize>)
    ensures
        match r {
            Some(i) => i < fields@.len() && lookup(fields@, key@) == Some(fields@[i as int].1),
            None => lookup(fields@, key@) is None,
        },
{
    let k = owned(key);
    let mut i: usize = 0;
    assert(fields@.skip(0) =~= fields@);
    while i < fields.len()
        invariant
            i <= fields@.len(),
            k@ == key@,
            lookup(fields@, key@) == lookup(fields@.skip(i as int), key@),
        decreases fields@.len() - i,
    {
        assert(fields@.skip(i as int).drop_first() =~= fields@.skip(i + 1));
        if fields[i].0 == k {
            return Some(i);
        }
        i = i + 1;
    }
    None
}

/// The index of the member holding the value of the first of the keys
/// `k1`, `k2`, `k3` that `fields` holds.
fn first_member_index(fields: &Vec<(String, Json)>, k1: &str, k2: &str, k3: &str) -> (r: Option<
    usize,
>)
    ensures
        match r {
            Some(i) => i < fields@.len() && first_present(fields@, seq![k1@, k2@, k3@]) == Some(
                fields@[i as int].1,
            ),
            None => first_present(fields@, seq![k1@, k2@, k3@]) is None,
        },
{
    let ghost keys = seq![k1@, k2@, k3@];
    assert(keys.drop_first() =~= seq![k2@, k3@]);
    assert(keys.drop_first().drop_first() =~= seq![k3@]);
    assert(keys.drop_first().drop_first().drop_first() =~= Seq::<Seq<char>>::empty());
    let ghost rest1 = keys.drop_first();
    let ghost rest2 = rest1.drop_first();
    assert(first_present(fields@, rest2) == match lookup(fields@, k3@) {
        Some(v) => Some(v),
        None => first_present(fields@, rest2.drop_first()),
    });
    assert(first_present(fields@, rest1) == match lookup(fields@, k2@) {
        Some(v) => Some(v),
        None => first_present(fields@, rest2),
    });
    assert(first_present(fields@, keys) == match lookup(fields@, k1@) {
        Some(v) => Some(v),
        None => first_present(fields@, rest1),
    });
    match member_index(fields, k1) {
        Some(i) => Some(i),
        None => match member_index(fields, k2) {
            Some(i) => Some(i),
            None => member_index(fields, k3),
        },
    }
}

/// Reads one envelope body into a tool call, given what decoding the body
/// as JSON gave: a value, or the decoder's message. `None` for a `json`
/// block that does not identify itself as a tool call.
pub fn read_envelope(raw: &str, style: EnvelopeStyle, parsed: Result<Json, String>) -> (r: Option<
    Result<ToolCall, ParseError>,
>)
    ensures
        outcome_matches(r, verdict(raw@, style, decoded_view(parsed))),
{
    let ignores = style == EnvelopeStyle::ToolKey;
    match parsed {
        Err(reason) => if ignores {
            None
        } else {
            Some(Err(ParseError::MalformedJson { raw: owned(raw), reason }))
        },
        Ok(Json::Object(mut fields)) => {
            proof {
                reveal_strlit("name");
                reveal_strlit("tool");
            }
            let name_index = match style {
                EnvelopeStyle::NameKey => first_member_index(&fields, "name", "name", "tool"),
                EnvelopeStyle::ToolKey => first_member_index(&fields, "tool", "name", "tool"),
            };
            let name = match name_index {
                Some(i) => match &fields[i].1 {
                    Json::Str(s) => s.clone(),
                    _ => {
                        return Some(Err(ParseError::MissingName { raw: owned(raw) }));
                    },
                },
                None => {
                    if ignores {
                        return None;
                    }
                    return Some(Err(ParseError::MissingName { raw: owned(raw) }));
                },
            };
            let args = match first_member_index(&fields, "args", "parameters", "input") {
                Some(j) => {
                    let (_, v) = fields.remove(j);
                    v
                },
                None => Json::empty_object(),
            };
            Some(Ok(ToolCall { name, args }))
        },
        Ok(_) => if ignores {
            None
        } else {
            Some(
                Err(
                    ParseError::MalformedJson {
                        raw: owned(raw),
                        reason: owned("expected JSON object at top level"),
                    },
                ),
            )
        },
    }
}

/// The verdicts, among `vs`, that are calls, in order.
pub open spec fn call_verdicts(vs: Seq<Verdict>) -> Seq<Verdict>
    decreases vs.len(),
{
    if vs.len() == 0 {
        seq![]
    } else if vs.last() is Call {
        call_verdicts(vs.drop_last()).push(vs.last())
    } else {
        call_verdicts(vs.drop_last())
    }
}

/// The verdicts, among `vs`, that are failures, in order.
pub open spec fn error_verdicts(vs: Seq<Verdict>) -> Seq<Verdict>
    decreases vs.len(),
{
    if vs.len() == 0 {
        seq![]
    } else if vs.last() is Call || vs.last() is Ignored {
        error_verdicts(vs.drop_last())
    } else {
        error_verdicts(vs.drop_last()).push(vs.last())
    }
}

/// The number of verdicts, among `vs`, that are not ignored.
pub open spec fn envelope_count(vs: Seq<Verdict>) -> nat
    decreases vs.len(),
{
    if vs.len() == 0 {
        0
    } else if vs.last() is Ignored {
        envelope_count(vs.drop_last())
    } else {
        envelope_count(vs.drop_last()) + 1
    }
}

/// Law: every envelope is accounted for exactly once, as a call or as an
/// error; a bad envelope never hides the others, and blocks that are not
/// envelopes are not counted.
pub proof fn lemma_every_envelope_reported(vs: Seq<Verdict>)
    ensures
        call_verdicts(vs).len() + error_verdicts(vs).len() == envelope_count(vs),
    decreases vs.len(),
{
    if vs.len() > 0 {
        lemma_every_envelope_reported(vs.drop_last());
    }
}

/// The verdicts of the envelopes `envs`, whose bodies decoded to `parsed`.
pub open spec fn verdicts(envs: Seq<Envelope>, parsed: Seq<Result<Json, String>>) -> Seq<Verdict> {
    Seq::new(
        envs.len(),
        |i: int| verdict(envs[i].body@, envs[i].style, decoded_view(parsed[i])),
    )
}

/// The verdicts of the envelopes `es` (body and style), each body decoded
/// as JSON.
pub open spec fn decoded_verdicts(es: Seq<(Seq<char>, EnvelopeStyle)>) -> Seq<Verdict> {
    Seq::new(es.len(), |i: int| verdict(es[i].0, es[i].1, json_decoded(es[i].0)))
}

/// `p` holds exactly the outcomes of the verdicts `vs`: the calls in order,
/// and the failures in order.
pub open spec fn reports(p: ParsedToolCalls, vs: Seq<Verdict>) -> bool {
    &&& p.calls@.len() == call_verdicts(vs).len()
    &&& forall|k: int|
        0 <= k < p.calls@.len() ==> {
            let v = #[trigger] call_verdicts(vs)[k];
            v matches Verdict::Call { name, args } && call_matches(p.calls@[k], name, args)
        }
    &&& p.errors@.len() == error_verdicts(vs).len()
    &&& forall|k: int|
        0 <= k < p.errors@.len() ==> error_matches(p.errors@[k], #[trigger] error_verdicts(vs)[k])
}

impl ParsedToolCalls {
    /// No calls and no errors.
    pub fn new() -> (r: ParsedToolCalls)
        ensures
            r.calls@.len() == 0,
            r.errors@.len() == 0,
    {
        ParsedToolCalls { calls: Vec::new(), errors: Vec::new() }
    }

    /// True when the reply held neither calls nor unreadable envelopes.
    pub fn is_empty(&self) -> (r: bool)
        ensures
            r == (self.calls@.len() == 0 && self.errors@.len() == 0),
    {
        self.calls.len() == 0 && self.errors.len() == 0
    }

    /// Records the outcome of one envelope.
    pub fn record(&mut self, raw: &str, style: EnvelopeStyle, parsed: Result<Json, String>)
        ensures
            ({
                let v = verdict(raw@, style, decoded_view(parsed));
                if v is Ignored {
                    &&& final(self).calls@ == old(self).calls@
                    &&& final(self).errors@ == old(self).errors@
                } else if v is Call {
                    &&& final(self).errors@ == old(self).errors@
                    &&& final(self).calls@.len() == old(self).calls@.len() + 1
                    &&& final(self).calls@.drop_last() == old(self).calls@
                    &&& v matches Verdict::Call { name, args } && call_matches(
                        final(self).calls@.last(),
                        name,
                        args,
                    )
                } else {
                    &&& final(self).calls@ == old(self).calls@
                    &&& final(self).errors@.len() == old(self).errors@.len() + 1
                    &&& final(self).errors@.drop_last() == old(self).errors@
                    &&& error_matches(final(self).errors@.last(), v)
                }
            }),
    {
        match read_envelope(raw, style, parsed) {
            Some(Ok(c)) => {
                self.calls.push(c);
                assert(self.calls@.drop_last() =~= old(self).calls@);
            },
            Some(Err(e)) => {
                self.errors.push(e);
                assert(self.errors@.drop_last() =~= old(self).errors@);
            },
            None => {},
        }
    }
}

/// Gathers the outcomes of the envelopes `envs` of a reply, given what
/// decoding each body as JSON gave, in the same order.
pub fn assemble(envs: &Vec<Envelope>, parsed: Vec<Result<Json, String>>) -> (r: ParsedToolCalls)
    requires
        parsed@.len() == envs@.len(),
    ensures
        reports(r, verdicts(envs@, parsed@)),
{
    let ghost all = parsed@;
    let ghost vs = verdicts(envs@, all);
    let mut rest = parsed;
    let mut out = ParsedToolCalls::new();
    let mut i: usize = 0;
    assert(all.skip(0) =~= all);
    assert(vs.take(0) =~= Seq::<Verdict>::empty());
    while i < envs.len()
        invariant
            i <= envs@.len(),
            all.len() == envs@.len(),
            vs == verdicts(envs@, all),
            rest@ == all.skip(i as int),
            reports(out, vs.take(i as int)),
        decreases envs@.len() - i,
    {
        let p = rest.remove(0);
        assert(p == all[i as int]);
        assert(rest@ =~= all.skip(i + 1));
        let ghost before = out;
        out.record(envs[i].body.as_str(), envs[i].style, p);
        proof {
            let pre = vs.take(i as int);
            let post = vs.take(i + 1);
            assert(post.drop_last() =~= pre);
            assert(post.last() == vs[i as int]);
            assert(vs[i as int] == verdict(
                envs@[i as int].body@,
                envs@[i as int].style,
                decoded_view(p),
            ));
            if vs[i as int] is Ignored {
                assert(call_verdicts(post) == call_verdicts(pre));
                assert(error_verdicts(post) == error_verdicts(pre));
            } else if vs[i as int] is Call {
                assert(call_verdicts(post) == call_verdicts(pre).push(vs[i as int]));
                assert(error_verdicts(post) == error_verdicts(pre));
                assert forall|k: int| 0 <= k < out.calls@.len() implies {
                    let v = #[trigger] call_verdicts(post)[k];
                    v matches Verdict::Call { name, args } && call_matches(out.calls@[k], name, args)
                } by {
                    if k < before.calls@.len() {
                        assert(out.calls@[k] == before.calls@[k]);
                        assert(call_verdicts(post)[k] == call_verdicts(pre)[k]);
                    }
                }
            } else {
                assert(call_verdicts(post) == call_verdicts(pre));
                assert(error_verdicts(post) == error_verdicts(pre).push(vs[i as int]));
                assert forall|k: int| 0 <= k < out.errors@.len() implies error_matches(
                    out.errors@[k],
                    #[trigger] error_verdicts(post)[k],
                ) by {
                    if k < before.errors@.len() {
                        assert(out.errors@[k] == before.errors@[k]);
                        assert(error_verdicts(post)[k] == error_verdicts(pre)[k]);
                    }
                }
            }
        }
        i = i + 1;
    }
    assert(vs.take(envs@.len() as int) =~= vs);
    out
}

/// What decoding a text as JSON gives (`serde_json::from_str` into a
/// `serde_json::Value`, converted to `Json`): the value, or the decoder's
/// message. It depends on the text alone.
pub uninterp spec fn json_decoded(text: Seq<char>) -> Result<Json, Seq<char>>;

/// A decoded JSON value (`serde_json::Value`), carried as it is.
#[verifier::external_type_specification]
#[verifier::external_body]
pub struct ExJsonValue(serde_json::Value);

/// Converts a `serde_json::Value` to `Json` one for one, variant by
/// variant: a number keeps its text, an object keeps its members in the
/// decoder's order. It is the conversion step of `decode_json`, written as a
/// function of its own because it recurses.
#[verifier::external_body]
fn json_of_value(v: &serde_json::Value) -> Json {
    match v {
        serde_json::Value::Null => Json::Null,
        serde_json::Value::Bool(b) => Json::Bool(*b),
        serde_json::Value::Number(n) => Json::Number(n.to_string()),
        serde_json::Value::String(t) => Json::Str(t.clone()),
        serde_json::Value::Array(a) => Json::Array(a.iter().map(json_of_value).collect()),
        serde_json::Value::Object(m) => Json::Object(
            m.iter().map(|(k, x)| (k.clone(), json_of_value(x))).collect(),
        ),
    }
}

/// Decodes a text as JSON (`serde_json::from_str`). The contract claims
/// only that the outcome, value or message, is `json_decoded` of the text.
#[verifier::external_body]
fn decode_json(text: &str) -> (r: Result<Json, String>)
    ensures
        decoded_view(r) == json_decoded(text@),
{
    match serde_json::from_str::<serde_json::Value>(text) {
        Ok(v) => Ok(json_of_value(&v)),
        Err(e) => Err(e.to_string()),
    }
}

/// Scans a reply and returns every tool call found, plus the envelopes that
/// could not be read, each body decoded as JSON. Never panics.
pub fn parse_tool_calls(text: &str) -> (r: ParsedToolCalls)
    ensures
        reports(r, decoded_verdicts(envelopes(text@))),
{
    let envs = scan_envelopes(text);
    let ghost es = envelopes(text@);
    let mut parsed: Vec<Result<Json, String>> = Vec::new();
    let mut i: usize = 0;
    while i < envs.len()
        invariant
            i <= envs@.len(),
            parsed@.len() == i,
            forall|j: int| 0 <= j < i ==> decoded_view(#[trigger] parsed@[j]) == json_decoded(
                envs@[j].body@,
            ),
        decreases envs@.len() - i,
    {
        parsed.push(decode_json(envs[i].body.as_str()));
        i = i + 1;
    }
    let ghost ps = parsed@;
    let r = assemble(&envs, parsed);
    proof {
        assert forall|j: int| 0 <= j < envs@.len() implies envelope_view(envs@[j]) == #[trigger] es[j] by {
            assert(envs@.map_values(|e: Envelope| envelope_view(e))[j] == es[j]);
        }
        assert(verdicts(envs@, ps) =~= decoded_verdicts(es));
    }
    r
}

impl ParseError {
    /// The diagnostic for this error.
    pub fn to_string(&self) -> (r: String)
        ensures
            r@ == parse_error_text(*self),
    {
        let mut r = String::new();
        match self {
            ParseError::MalformedJson { raw, reason } => {
                push_str(&mut r, "malformed JSON in tool call: ");
                push_str(&mut r, reason.as_str());
                push_str(&mut r, " (raw: ");
                let q = debug_text(raw.as_str());
                push_str(&mut r, q.as_str());
                push_str(&mut r, ")");
            },
            ParseError::MissingName { raw } => {
                push_str(&mut r, "tool call is missing 'name' field (raw: ");
                let q = debug_text(raw.as_str());
                push_str(&mut r, q.as_str());
                push_str(&mut r, ")");
            },
            ParseError::Unterminated { raw } => {
                push_str(&mut r, "tool call block was never closed (raw: ");
                let q = debug_text(raw.as_str());
                push_str(&mut r, q.as_str());
                push_str(&mut r, ")");
            },
        }
        r
    }
}

/// What std's `Debug` formatting writes for a string: the string quoted,
/// with quotes, backslashes and non-printable characters escaped.
pub uninterp spec fn str_debug(s: Seq<char>) -> Seq<char>;

/// The diagnostic for a parse error.
pub open spec fn parse_error_text(e: ParseError) -> Seq<char> {
    match e {
        ParseError::MalformedJson { raw, reason } => "malformed JSON in tool call: "@ + reason@
            + " (raw: "@ + str_debug(raw@) + ")"@,
        ParseError::MissingName { raw } => "tool call is missing 'name' field (raw: "@ + str_debug(
            raw@,
        ) + ")"@,
        ParseError::Unterminated { raw } => "tool call block was never closed (raw: "@
            + str_debug(raw@) + ")"@,
    }
}

/// `format!("{:?}", s)`: std's `Debug` rendering of a string.
#[verifier::external_body]
fn debug_text(s: &str) -> (r: String)
    ensures
        r@ == str_debug(s@),
{
    format!("{:?}", s)
}

/// Converts parse errors into tool errors, for callers that surface parse
/// failures as structured errors.
pub fn parsed_errors_to_tool_errors(errors: &[ParseError]) -> (r: Vec<ToolError>)
    ensures
        r@.len() == errors@.len(),
        forall|k: int|
            0 <= k < r@.len() ==> (#[trigger] r@[k] matches ToolError::InvalidArgs(m) && m@ == "parse: "@
                + parse_error_text(errors@[k])),
{
    let mut r: Vec<ToolError> = Vec::new();
    let mut i: usize = 0;
    while i < errors.len()
        invariant
            i <= errors@.len(),
            r@.len() == i,
            forall|k: int|
                0 <= k < i ==> (#[trigger] r@[k] matches ToolError::InvalidArgs(m) && m@ == "parse: "@
                    + parse_error_text(errors@[k])),
        decreases errors@.len() - i,
    {
        let mut m = String::new();
        push_str(&mut m, "parse: ");
        let d = errors[i].to_string();
        push_str(&mut m, d.as_str());
        r.push(ToolError::InvalidArgs(m));
        i = i + 1;
    }
    r
}

} // verus!
