//! Conversations with inference backends.
//!
//! Every provider receives the same conversation: a list of messages, each
//! with a role. The providers speaking the OpenAI chat-completions protocol
//! share one wire format; the browser backend flattens the conversation into
//! a single prompt.
use vstd::prelude::*;

pub mod browser;
pub mod gemini;
pub mod groq;
pub mod ollama;
pub mod openai_compat;
pub mod together;

verus! {

/// Who a message is from.
#[derive(Debug, Clone, Copy, PartialEq, Eq, Structural)]
pub enum Role {
    System,
    User,
    Assistant,
    /// A tool result returned to the model.
    Tool,
}

/// A single message in a conversation.
#[derive(Debug, Clone)]
pub struct Message {
    pub role: Role,
    pub content: String,
}

impl Message {
    /// A system message.
    pub fn system(content: String) -> (r: Message)
        ensures
            r.role == Role::System,
            r.content == content,
    {
        Message { role: Role::System, content }
    }

    /// A user message.
    pub fn user(content: String) -> (r: Message)
        ensures
            r.role == Role::User,
            r.content == content,
    {
        Message { role: Role::User, content }
    }

    /// An assistant message.
    pub fn assistant(content: String) -> (r: Message)
        ensures
            r.role == Role::Assistant,
            r.content == content,
    {
        Message { role: Role::Assistant, content }
    }

    /// A tool-result message.
    pub fn tool(content: String) -> (r: Message)
        ensures
            r.role == Role::Tool,
            r.content == content,
    {
        Message { role: Role::Tool, content }
    }
}

/// The role's name in the chat-completions protocol.
pub open spec fn wire_role(r: Role) -> Seq<char> {
    match r {
        Role::System => "system"@,
        Role::User => "user"@,
        Role::Assistant => "assistant"@,
        Role::Tool => "tool"@,
    }
}

impl Role {
    /// The role's name in the chat-completions protocol.
    pub fn wire_name(self) -> (r: &'static str)
        ensures
            r@ == wire_role(self),
    {
        match self {
            Role::System => "system",
            Role::User => "user",
            Role::Assistant => "assistant",
            Role::Tool => "tool",
        }
    }
}

/// Where and as whom a chat-completions provider is reached, and which model
/// it runs.
#[derive(Debug, Clone)]
pub struct ProviderSettings {
    /// Base URL, e.g. `https://api.openai.com/v1`.
    pub base_url: String,
    /// API key; empty for providers that need none.
    pub api_key: String,
    /// Model identifier.
    pub model: String,
    /// Name shown in messages.
    pub display_name: &'static str,
}

/// The model asked for, or the provider's default.
pub fn model_or(model: Option<String>, default: &str) -> (r: String)
    ensures
        r@ == match model {
            Some(m) => m@,
            None => default@,
        },
{
    match model {
        Some(m) => m,
        None => crate::text::owned(default),
    }
}

} // verus!
