//! Client for providers that speak the OpenAI chat-completions wire format.

pub mod client;
pub mod config;
pub mod laws;
pub mod request;
pub mod stream;
pub mod usage;
