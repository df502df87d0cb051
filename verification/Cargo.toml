[package]
name = "lol_quotes"
version = "0.1.0"
edition = "2021"
publish = false

[dependencies]
regex = "=1.13.1"
serde = { version = "=1.0.229", features = ["derive"] }
simd-json = "=0.14.3"
hyper = { version = "=0.14.32", features = ["client", "http1", "http2", "tcp"] }
hyper-rustls = { version = "=0.23.2", features = ["webpki-roots", "http1", "http2"] }
tokio = { version = "=1.54.1", features = ["full"] }
tracing = "=0.1.44"
tracing-subscriber = "=0.3.23"
dashmap = "5"
futures-util = "0.3"
rand = "0.8"
serde_json = "1"
sqlx = { version = "0.5", default-features = false, features = ["runtime-tokio-rustls", "sqlite", "migrate"] }
twilight-gateway = "0.8"
twilight-http = "0.8"
twilight-interactions = "0.8"
twilight-model = "0.8"
twilight-util = { version = "0.8", features = ["builder"] }
