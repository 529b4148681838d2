[package]
name = "tsein_dns"
version = "0.1.0"
edition = "2021"
publish = false

[dependencies]
anyhow = "1"
async-recursion = "1"
async-trait = "0.1"
bytes = "1"
futures = "0.3"
moka = { version = "0.9", features = ["future"] }
quinn = "0.8"
rand = "0.8"
rustls = "0.20"
rustls-native-certs = "0.6"
rustls-pemfile = "1"
stretto = { version = "0.8", features = ["async"] }
thiserror = "1"
tokio = { version = "1", features = ["full"] }
tokio-rustls = "0.23"
tracing = "0.1"
tracing-subscriber = { version = "0.3", features = ["time", "local-time"] }
