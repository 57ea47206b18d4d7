//! Agent Client Protocol server: session lifecycle and the rules around it.

pub mod config;
pub mod controls;
pub mod elicitation;
pub mod error;
pub mod handler;
pub mod laws;
pub mod listing;
pub mod mcp;
pub mod path;
pub mod prompt;
pub mod protocol;
pub mod registry;
pub mod step_laws;
