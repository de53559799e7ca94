[package]
name = "dygma_sd_plugin"
version = "0.1.0"
edition = "2021"
publish = false

[dependencies]
anyhow = "1"
base64 = "0.22"
dygma_focus = "*"
futures = "0.3"
resvg = "*"
serde = { version = "1", features = ["derive"] }
streamdeck-rs = "*"
thiserror = "*"
tokio = { version = "1", features = ["rt-multi-thread", "macros", "sync", "time"] }
tracing = "0.1"
tracing-subscriber = { version = "0.3", features = ["env-filter", "fmt"] }
