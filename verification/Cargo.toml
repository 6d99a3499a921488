[package]
name = "agl_health"
version = "0.1.0"
edition = "2021"
publish = false

[dependencies]
anyhow = "1"
aya = "0.13"
axum = { version = "0.8", features = ["ws"] }
clap = { version = "4", features = ["derive"] }
libc = "0.2"
memmap2 = "0.9"
serde = { version = "1", features = ["derive"] }
serde-big-array = "0.5"
serde_json = "1"
tokio = { version = "1", features = ["full"] }
tracing = "0.1"
tracing-subscriber = { version = "0.3", features = ["env-filter"] }
zbus = "5"
