//! The logic between agents and the outside: model clients that decode
//! streamed completions, and an Agent Client Protocol server that keeps track
//! of sessions. Input and output are left to the caller.

pub mod acp;
pub mod custom_headers;
pub mod deepseek;
pub mod error;
pub mod http;
pub mod json;
pub mod llm;
pub mod number;
pub mod openai;
pub mod sse;
pub mod table;
pub mod text;
pub mod tool_calls;
