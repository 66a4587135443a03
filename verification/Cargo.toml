[package]
name = "aria_lang"
version = "0.1.0"
edition = "2021"
publish = false

[dependencies]
tower-lsp = "0.20"
tokio = { version = "1", features = ["full"] }
ropey = "1"
dashmap = "6"
parking_lot = "0.12"
serde_json = "1"
tracing = "0.1"
thiserror = "1"
