[package]
name = "obscura_net"
version = "0.1.0"
edition = "2021"
publish = false

[dependencies]
reqwest = { version = "0.12", default-features = false, features = ["rustls-tls"] }
thiserror = "1"
tokio = { version = "1", features = ["fs", "net", "rt", "sync", "time"] }
tracing = "0.1"
url = "2"

[dev-dependencies]
rcgen = "0.13"
