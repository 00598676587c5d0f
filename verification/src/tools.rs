//! The tool system: errors, the call protocol, argument preflight, the
//! registry, the system prompt and the built-in tools.
pub mod error;
pub mod protocol;
pub mod schema;
pub mod registry;
pub mod prompt;
pub mod builtins;
