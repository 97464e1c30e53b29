[package]
name = "rtp_ingest"
version = "0.1.0"
edition = "2021"
publish = false

[dependencies]
uuid = { version = "*", features = ["v4"] }
chrono = "*"
tokio = { version = "*", features = ["net", "rt-multi-thread", "macros", "time"] }
rand = "*"
anyhow = "*"
clap = { version = "*", features = ["derive"] }
tracing = "*"
tracing-subscriber = { version = "*", features = ["env-filter"] }

[dev-dependencies]
rtp = "*"
bytes = "*"
webrtc-util = "*"
