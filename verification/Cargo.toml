[package]
name = "hotfix"
version = "0.1.0"
edition = "2021"
publish = false

[dependencies]
chrono = { version = "=0.4.45", features = ["serde"] }
chrono-tz = { version = "=0.10.4", features = ["serde"] }
serde = { version = "=1.0.229", features = ["derive"] }
toml = "=0.8.23"
tokio = { version = "=1.54.1", features = ["rt", "rt-multi-thread", "macros", "net", "time", "sync", "io-util"] }
anyhow = "=1.0.104"
rustls = { version = "=0.23.46", default-features = false, features = ["ring", "std", "tls12", "logging"] }
tokio-rustls = { version = "=0.26.6", default-features = false, features = ["ring", "tls12", "logging"] }
rustls-pemfile = "=2.2.0"
rustls-native-certs = "=0.8.5"
rustls-pki-types = "=1.15.1"
webpki-roots = "=0.26.11"
