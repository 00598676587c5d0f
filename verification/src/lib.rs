//! chatbang: the verified core of a terminal LLM client with a pluggable
//! tool system.
pub mod text;
pub mod json;
pub mod backends;
pub mod config;
pub mod platform;
pub mod agent;
pub mod tools;
