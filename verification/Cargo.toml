[package]
name = "quicftp"
version = "0.1.0"
edition = "2021"
publish = false

[dependencies]
anyhow = "=1.0.104"
argon2 = { version = "=0.5.3", features = ["std"] }
clap = { version = "=4.6.7", features = ["derive"] }
quinn = "=0.11.12"
rcgen = "=0.13.2"
rustls = { version = "=0.23.46", default-features = false, features = ["ring", "std", "logging", "tls12"] }
serde = { version = "=1.0.229", features = ["derive"] }
thiserror = "=2.0.21"
tokio = { version = "=1.54.1", features = ["full"] }
toml = "=0.8.23"
tracing = "=0.1.44"
tracing-subscriber = { version = "=0.3.23", features = ["env-filter"] }
