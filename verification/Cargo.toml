[package]
name = "grpc_project"
version = "0.1.0"
edition = "2021"
publish = false

[dependencies]
bytes = "1"
flate2 = "1"
http = "1"
h2 = "0.4"
prost = "*"
thiserror = "*"
futures-util = "0.3"
tokio = { version = "1", features = ["net", "time", "rt", "sync"] }
