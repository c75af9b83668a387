[package]
name = "dualterm"
version = "0.1.0"
edition = "2021"
publish = false

[dependencies]
axum = { version = "0.8", features = ["ws"] }
futures-util = { version = "0.3", features = ["sink"] }
portable-pty = "0.9"
tokio = { version = "1", features = ["macros", "rt-multi-thread", "net", "sync", "time"] }
