[package]
name = "batchinf"
version = "0.1.0"
edition = "2021"
publish = false

[dependencies]
tokio = { version = "1", features = ["rt-multi-thread", "sync", "time", "macros", "signal", "net"] }
fastrand = "2"
thiserror = "2"
anyhow = "1"
axum = "*"
serde = { version = "1", features = ["derive"] }
candle-core = "*"
candle-nn = "*"
candle-transformers = "*"
hf-hub = { version = "*", default-features = false, features = ["ureq"] }
image = { version = "*", default-features = false, features = ["jpeg", "png"] }
