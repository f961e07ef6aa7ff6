[package]
name = "gqy"
version = "0.1.0"
edition = "2021"
publish = false

[dependencies]
anyhow = "=1.0.104"
axum = "=0.8.9"
base64 = "=0.22.1"
blake3 = "=1.8.7"
chrono = { version = "=0.4.45", default-features = false, features = ["clock", "std"] }
directories = "=6.0.0"
futures-util = "=0.3.34"
if-addrs = "=0.13.4"
image = { version = "=0.25.10", default-features = false, features = ["png", "jpeg", "gif", "webp", "bmp"] }
rand = "=0.8.8"
reqwest = { version = "0.12", default-features = false }
rpassword = "=7.5.4"
rusqlite = { version = "=0.32.1", features = ["bundled"] }
serde = { version = "=1.0.229", features = ["derive"] }
serde_json = "=1.0.154"
sha2 = "=0.10.9"
tempfile = "=3.27.0"
tokio = { version = "=1.54.1", features = ["rt-multi-thread", "net", "sync", "time", "macros", "fs", "signal", "io-util"] }
tokio-util = { version = "=0.7.20", features = ["io"] }
tracing = "=0.1.44"
