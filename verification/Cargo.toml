[package]
name = "fast_dav_rs"
version = "0.1.0"
edition = "2021"
publish = false

[dependencies]
base64 = "=0.22.1"
bytes = "=1.12.1"
futures = "=0.3.34"
http-body-util = "=0.1.5"
hyper = { version = "=1.12.0", features = ["client", "http1", "http2"] }
hyper-rustls = { version = "=0.27.10", features = ["http2"] }
hyper-util = { version = "=0.1.21", features = ["client-legacy", "client-proxy", "http1", "http2", "tokio"] }
parking_lot = "=0.12.5"
quick-xml = { version = "=0.42.0", features = ["async-tokio"] }
rustls = "=0.23.46"
rustls-native-certs = "=0.8.5"
rustls-pki-types = "=1.15.1"
serde_json = "=1.0.154"
tokio = { version = "=1.54.1", features = ["rt-multi-thread", "macros", "time", "sync", "io-util"] }
webpki-roots = "=1.0.10"
zeroize = "=1.9.1"
