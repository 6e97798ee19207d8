//! An OpenAI-compatible proxy in front of a chat-completion service.

pub mod cli;
pub mod clock;
pub mod config;
pub mod error;
pub mod headers;
pub mod json;
pub mod laws;
pub mod proxy;
pub mod text;
