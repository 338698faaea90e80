[package]
name = "tundra"
version = "0.1.0"
edition = "2021"
publish = false

[dependencies]
anyhow = "=1.0.104"
bincode = "=1.3.3"
blake3 = "=1.8.7"
chacha20poly1305 = "=0.10.1"
clap = { version = "=4.6.7", features = ["derive", "env"] }
dirs = "=5.0.1"
hex = "=0.4.3"
log = "=0.4.35"
pqc_kyber = { version = "=0.7.1", features = ["std"] }
quinn = { version = "=0.11.12", default-features = false, features = ["runtime-tokio", "rustls-ring", "log"] }
quinn-proto = { version = "=0.11.19", default-features = false, features = ["rustls-ring", "log"] }
rand = "=0.9.5"
rand_chacha = "=0.9.0"
rand_core = { version = "=0.6.4", features = ["getrandom"] }
rcgen = "=0.13.2"
rustls = { version = "=0.23.46", default-features = false, features = ["ring", "std", "tls12", "logging"] }
serde = { version = "=1.0.229", features = ["derive"] }
serde_json = "=1.0.154"
thiserror = "=1.0.69"
tokio = { version = "=1.54.1", features = ["full"] }
tokio-rustls = { version = "=0.26.6", default-features = false, features = ["ring", "tls12", "logging"] }
tokio-util = "=0.7.20"
toml = "=0.8.23"
tracing = "=0.1.44"
tracing-subscriber = { version = "=0.3.23", features = ["env-filter"] }
webpki-roots = "=0.26.11"
x25519-dalek = { version = "=2.0.1", features = ["static_secrets"] }
zeroize = "=1.9.1"
