[package]
name = "scrawl"
version = "0.1.0"
edition = "2021"
publish = false

[dependencies]
ratatui = { version = "*", features = ["unstable-rendered-line-info"] }
tokio = { version = "*", features = ["macros", "rt-multi-thread"] }
anthropic-ai-sdk = "*"
