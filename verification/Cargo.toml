[package]
name = "ohrs"
version = "0.1.0"
edition = "2021"
publish = false

[dependencies]
owo-colors = "=4.4.0"
semver = "=1.0.28"
sha2 = "=0.10.9"
anyhow = "=1.0.104"
cargo_metadata = "=0.18.1"
clap = { version = "=4.6.7", features = ["derive"] }
bpaf = "=0.9.28"
flate2 = "=1.1.10"
tar = "=0.4.46"
fs_extra = "=1.3.0"
serde = { version = "=1.0.229", features = ["derive"] }
serde_json = "=1.0.154"
whoami = "=1.6.1"
tokio = { version = "1", features = ["rt-multi-thread"] }
