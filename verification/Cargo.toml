[package]
name = "herdr"
version = "0.1.0"
edition = "2021"
publish = false

[dependencies]
anyhow = "=1.0.104"
axum = { version = "=0.7.9", features = ["ws"] }
futures-util = "=0.3.34"
portable-pty = "=0.8.1"
rust-embed = { version = "=8.13.0", features = ["interpolate-folder-path"] }
serde = { version = "=1.0.229", features = ["derive"] }
serde_json = "=1.0.154"
sysinfo = { version = "=0.33.1", default-features = false, features = ["system"] }
tokio = { version = "=1.54.1", features = ["rt-multi-thread", "net", "sync", "macros", "io-util"] }
tracing = "=0.1.44"
tracing-subscriber = { version = "=0.3.23", features = ["env-filter"] }
