[package]
name = "mize"
version = "0.1.0"
edition = "2021"
publish = false

[dependencies]
sha2 = "0.10"
ciborium = "0.2"
serde = { version = "1", features = ["derive"] }
serde_json = "1"
toml = "0.8"
clap = "4"
colored = "2"
tracing = "0.1"
tracing-core = "0.1"
flume = "0.11"
crossbeam = "0.8"
libloading = "0.8"
flate2 = "1"
tar = "0.4"
sysinfo = "0.30"
http_req = { version = "0.10", default-features = false }
