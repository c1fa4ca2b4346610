[package]
name = "btrfs-csi"
version = "0.2.0"
edition = "2021"
publish = false

[dependencies]
anyhow = "1"
blake3 = { version = "1", default-features = false, features = ["pure"] }
bytes = "1"
chacha20poly1305 = "0.10"
chrono = "0.4"
clap = { version = "4", features = ["derive"] }
hmac = "0.12"
libc = "0.2"
rand = "0.8"
serde = { version = "1", features = ["derive"] }
serde_json = "1"
sha2 = "0.10"
thiserror = "1"
tokio = { version = "1", features = ["full"] }
tokio-stream = { version = "0.1", features = ["fs", "net"] }
toml = "0.8"
tonic = { version = "0.12", default-features = false }
tracing = "0.1"
tracing-subscriber = { version = "0.3", features = ["env-filter"] }
uuid = { version = "1", features = ["v4"] }
