[package]
name = "ivaldi_core"
version = "0.1.0"
edition = "2021"
publish = false

[dependencies]
regex = "1"
sha2 = "0.10"
strsim = "0.11"
chrono = { version = "0.4", features = ["serde"] }
serde = { version = "1", features = ["derive"] }
serde_json = "1"
schemars = "*"
anyhow = "1"
thiserror = "*"
tokio = { version = "1", features = ["full"] }
clap = { version = "4", features = ["derive", "env"] }
colored = "*"
ignore = "*"
glob = "*"
tempfile = "3"
fs2 = "*"
toml = "*"
uuid = { version = "1", features = ["v4", "serde"] }
similar = "*"
libc = "0.2"
tracing = "*"
tracing-subscriber = "*"
cedar-policy = "*"
git2 = { version = "*", default-features = false }
systemd = "*"
