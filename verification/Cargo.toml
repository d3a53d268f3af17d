[package]
name = "workset"
version = "0.1.0"
edition = "2021"
publish = false

[dependencies]
anyhow = "1"
cmd_lib = "*"
crossterm = "*"
fuzzy-matcher = "0.3"
gix = { version = "*", features = ["blocking-network-client"] }
home = "*"
pico-args = "*"
ratatui = "*"
serde = { version = "1", features = ["derive"] }
serde_json = "1"
tracing = "0.1"
tracing-subscriber = { version = "0.3", features = ["env-filter"] }
