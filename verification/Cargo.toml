[package]
name = "sim"
version = "0.1.0"
edition = "2021"
publish = false

[dependencies]
rand = { version = "=0.10.3", default-features = false, features = ["chacha"] }
sha2 = "=0.11.1"
serde = { version = "=1.0.229", features = ["derive"] }
serde_json = "=1.0.154"
csv = "=1.4.0"
toml = "=1.1.8"
thiserror = "=2.0.21"
clap = { version = "=4.6.7", features = ["derive"] }
anyhow = "=1.0.104"
