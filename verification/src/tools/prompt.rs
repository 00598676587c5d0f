//! The agent's system prompt, generated from the live registry, so that it
//! always lists exactly the registered tools.
use vstd::prelude::*;

use crate::text::{contains, occurs_at, push_str};
use crate::tools::registry::{ToolDefinition, ToolRegistry};

verus! {

/// The fixed text that opens the system prompt.
pub open spec fn prompt_preamble() -> Seq<char> {
    "[SYSTEM — read carefully before responding]\n"@
        + "You are a helpful assistant with access to tools on the user's machine.\n\n"@
        + "When you need to use a tool, emit one or more tool calls using ONE of these\nequivalent formats (one tool call per block, nothing else inside the block):\n\n"@
        + "  <tool_call>{\"name\": \"TOOL_NAME\", \"args\": {\"KEY\": \"VALUE\"}}</tool_call>\n"@
        + "  ```tool_call\n  {\"name\": \"TOOL_NAME\", \"args\": {\"KEY\": \"VALUE\"}}\n  ```\n\n"@
        + "After emitting tool calls, stop immediately. The results will come back to\nyou wrapped in <tool_result name=\"TOOL_NAME\">...</tool_result>. Use them\nto continue reasoning. When you have all the information you need, give\nyour final answer with no tool calls at all.\n\n"@
}

/// The line written when no tool is registered.
pub open spec fn no_tools_line() -> Seq<char> {
    "(No tools are currently registered.)\n"@
}

/// The heading of the tool list.
pub open spec fn tools_heading() -> Seq<char> {
    "Available tools:\n"@
}

/// The fixed text that closes the system prompt.
pub open spec fn prompt_footer() -> Seq<char> {
    "\n[END SYSTEM]\n\n"@
}

/// The lines describing one tool: its name, description and argument schema.
pub open spec fn tool_section(d: ToolDefinition) -> Seq<char> {
    "  "@ + d.name@ + " — "@ + d.description@ + "\n"@ + "    args schema: "@ + d.parameters.text@
        + "\n"@
}

/// The sections of all of `defs`, in order.
pub open spec fn tool_sections(defs: Seq<ToolDefinition>) -> Seq<char>
    decreases defs.len(),
{
    if defs.len() == 0 {
        seq![]
    } else {
        tool_sections(defs.drop_last()) + tool_section(defs.last())
    }
}

/// The system prompt for the tools `defs`.
pub open spec fn prompt_text(defs: Seq<ToolDefinition>) -> Seq<char> {
    prompt_preamble() + (if defs.len() == 0 {
        no_tools_line()
    } else {
        tools_heading() + tool_sections(defs)
    }) + prompt_footer()
}

/// Appends the section for one tool.
fn push_tool_section(out: &mut String, d: &ToolDefinition)
    ensures
        final(out)@ == old(out)@ + tool_section(*d),
{
    push_str(out, "  ");
    push_str(out, d.name.as_str());
    push_str(out, " — ");
    push_str(out, d.description.as_str());
    push_str(out, "\n");
    push_str(out, "    args schema: ");
    push_str(out, d.parameters.text.as_str());
    push_str(out, "\n");
    assert(out@ =~= old(out)@ + tool_section(*d));
}

/// Renders the agent's system prompt, listing every registered tool with
/// its name, description and argument schema, in name order.
pub fn generate_system_prompt<T: ?Sized>(reg: &ToolRegistry<T>) -> (r: String)
    ensures
        r@ == prompt_text(reg.listing()),
{
    let defs = reg.definitions();
    let mut out = String::new();
    push_str(&mut out, "[SYSTEM — read carefully before responding]\n");
    push_str(
        &mut out,
        "You are a helpful assistant with access to tools on the user's machine.\n\n",
    );
    push_str(
        &mut out,
        "When you need to use a tool, emit one or more tool calls using ONE of these\nequivalent formats (one tool call per block, nothing else inside the block):\n\n",
    );
    push_str(
        &mut out,
        "  <tool_call>{\"name\": \"TOOL_NAME\", \"args\": {\"KEY\": \"VALUE\"}}</tool_call>\n",
    );
    push_str(
        &mut out,
        "  ```tool_call\n  {\"name\": \"TOOL_NAME\", \"args\": {\"KEY\": \"VALUE\"}}\n  ```\n\n",
    );
    push_str(
        &mut out,
        "After emitting tool calls, stop immediately. The results will come back to\nyou wrapped in <tool_result name=\"TOOL_NAME\">...</tool_result>. Use them\nto continue reasoning. When you have all the information you need, give\nyour final answer with no tool calls at all.\n\n",
    );
    assert(out@ =~= prompt_preamble());
    let ghost listing = reg.listing();
    if defs.len() == 0 {
        push_str(&mut out, "(No tools are currently registered.)\n");
    } else {
        push_str(&mut out, "Available tools:\n");
        let ghost head = out@;
        let mut i: usize = 0;
        assert(listing.take(0) =~= Seq::<ToolDefinition>::empty());
        while i < defs.len()
            invariant
                i <= defs@.len(),
                defs@.len() == listing.len(),
                forall|j: int| 0 <= j < defs@.len() ==> *#[trigger] defs@[j] == listing[j],
                out@ == head + tool_sections(listing.take(i as int)),
            decreases defs@.len() - i,
        {
            push_tool_section(&mut out, defs[i]);
            assert(listing.take(i + 1).drop_last() =~= listing.take(i as int));
            assert(out@ =~= head + tool_sections(listing.take(i + 1)));
            i = i + 1;
        }
        assert(listing.take(listing.len() as int) =~= listing);
    }
    push_str(&mut out, "\n[END SYSTEM]\n\n");
    assert(out@ =~= prompt_text(listing));
    out
}

/// A string occurring in the middle part of a concatenation occurs in the
/// whole.
pub proof fn lemma_contains_in_middle(a: Seq<char>, s: Seq<char>, b: Seq<char>, p: Seq<char>)
    requires
        contains(s, p),
    ensures
        contains(a + s + b, p),
{
    let i = choose|i: int| occurs_at(s, p, i);
    let t = a + s + b;
    assert(t.subrange(i + a.len(), i + a.len() + p.len()) =~= s.subrange(i, i + p.len()));
    assert(occurs_at(t, p, i + a.len()));
}

/// Each tool's section occurs in the sections of a list that holds it.
pub proof fn lemma_section_listed(defs: Seq<ToolDefinition>, i: int)
    requires
        0 <= i < defs.len(),
    ensures
        contains(tool_sections(defs), tool_section(defs[i])),
    decreases defs.len(),
{
    let last = defs.len() - 1;
    if i == last {
        let x = tool_section(defs[i]);
        let pre = tool_sections(defs.drop_last());
        assert(contains(x, x)) by {
            assert(x.subrange(0, x.len() as int) =~= x);
            assert(occurs_at(x, x, 0));
        }
        lemma_contains_in_middle(pre, x, seq![], x);
        assert(pre + x + seq![] =~= tool_sections(defs));
    } else {
        lemma_section_listed(defs.drop_last(), i);
        let pre = tool_sections(defs.drop_last());
        lemma_contains_in_middle(seq![], pre, tool_section(defs.last()), tool_section(defs[i]));
        assert(seq![] + pre + tool_section(defs.last()) =~= tool_sections(defs));
    }
}

/// Law: the system prompt describes every registered tool: the section
/// with its name, description and argument schema occurs in the prompt.
pub proof fn lemma_prompt_lists_every_tool<T: ?Sized>(reg: &ToolRegistry<T>, name: Seq<char>)
    requires
        reg.wf(),
        reg@.contains_key(name),
    ensures
        contains(prompt_text(reg.listing()), tool_section(reg@[name].0)),
{
    let i = choose|i: int| reg.has_at(name, i);
    reg.lemma_entry(i);
    lemma_section_listed(reg.listing(), i);
    lemma_contains_in_middle(
        prompt_preamble() + tools_heading(),
        tool_sections(reg.listing()),
        prompt_footer(),
        tool_section(reg.listing()[i]),
    );
    assert(prompt_preamble() + tools_heading() + tool_sections(reg.listing()) + prompt_footer()
        =~= prompt_text(reg.listing()));
}

/// Law: with no tool registered, the prompt says so.
pub proof fn lemma_prompt_when_empty<T: ?Sized>(reg: &ToolRegistry<T>)
    requires
        reg.listing().len() == 0,
    ensures
        contains(prompt_text(reg.listing()), no_tools_line()),
{
    let x = no_tools_line();
    assert(contains(x, x)) by {
        assert(x.subrange(0, x.len() as int) =~= x);
        assert(occurs_at(x, x, 0));
    }
    lemma_contains_in_middle(prompt_preamble(), x, prompt_footer(), x);
}

} // verus!
