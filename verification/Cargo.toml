[package]
name = "ntp-core"
version = "0.1.0"
edition = "2021"
publish = false

[dependencies]
clap = { version = "*", features = ["derive"] }
libc = "*"
serde_json = "*"
tokio = { version = "*", features = ["macros", "rt-multi-thread", "net", "io-util", "sync"] }
tracing = "*"
tracing-subscriber = { version = "*", features = ["env-filter"] }
