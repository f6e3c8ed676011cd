[package]
name = "quic_forward_proxy"
version = "0.1.0"
edition = "2021"
publish = false

[dependencies]
anyhow = "=1.0.104"
base64 = "=0.21.7"
bincode = "=1.3.3"
fan = "=0.1.3"
futures = "=0.3.34"
itertools = "=0.10.5"
log = "=0.4.34"
native-tls = "=0.2.18"
postgres-native-tls = "=0.5.3"
quinn = "=0.9.4"
rustls = { version = "=0.20.9", features = ["dangerous_configuration"] }
solana-net-utils = "=1.16.27"
solana-sdk = "=1.16.27"
tokio = { version = "=1.54.1", features = ["full"] }
tokio-postgres = "=0.7.18"
tracing = "=0.1.44"
