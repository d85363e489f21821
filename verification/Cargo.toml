[package]
name = "tim_code"
version = "0.1.0"
edition = "2021"
publish = false

[dependencies]
tokio = { version = "1", features = ["sync", "rt-multi-thread", "macros", "time"] }
hex = "0.4"
rand = "0.8"
chrono = "0.4"
prost = "0.13"
prost-types = "0.13"
tonic = "0.13"
tonic-web = "0.13"
tower-http = { version = "0.6", features = ["cors"] }
tokio-stream = "0.1"
tracing = "0.1"
tracing-subscriber = { version = "0.3", features = ["env-filter"] }
thiserror = "2"
rocksdb = "*"
