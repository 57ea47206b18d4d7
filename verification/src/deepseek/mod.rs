//! DeepSeek client.

pub mod client;
pub mod config;
pub mod laws;
pub mod request;
pub mod stream;
