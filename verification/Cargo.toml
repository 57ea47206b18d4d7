[package]
name = "agent_bridge"
version = "0.1.0"
edition = "2021"
publish = false

[dependencies]
agent-client-protocol = { version = "=5.0.0", features = ["unstable_session_fork"] }
agent-client-protocol-http = { version = "=5.0.0", features = ["server"] }
async-openai = { version = "=0.43.0", default-features = false, features = ["chat-completion-types"] }
async-stream = "0.3"
async-trait = "0.1"
axum = "0.8"
futures = "0.3"
reqwest = { version = "=0.13.5", default-features = false, features = ["json", "stream", "rustls"] }
rmcp = { version = "=3.8.0", features = ["client", "transport-child-process"] }
serde = { version = "1", features = ["derive"] }
serde_json = { version = "=1.0.154", features = ["preserve_order"] }
tokio = { version = "1", features = ["full"] }
tokio-util = "0.7"
tracing = "0.1"
uuid = { version = "=1.29.0", features = ["v4"] }
