[package]
name = "omp-remote"
version = "0.1.0"
edition = "2021"
publish = false

[dependencies]
base64 = "=0.22.1"
ciborium = "=0.2.2"
serde = { version = "=1.0.229", features = ["derive"] }
serde_json = "=1.0.154"
tokio = { version = "=1.54.1", features = ["rt", "sync", "time", "macros", "process", "io-util"] }
url = "=2.5.8"
getrandom = "=0.3.4"
futures-channel = "=0.3.34"
