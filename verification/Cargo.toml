[package]
name = "omp_launchpad"
version = "0.1.0"
edition = "2021"
publish = false

[dependencies]
chrono = "0.4"
dirs = "*"
futures = "0.3"
lpcli = "*"
percent-encoding = "2"
reqwest = { version = "0.12", default-features = false, features = ["rustls-tls"] }
serde = { version = "1", features = ["derive"] }
serde_json = "1"
thiserror = "2"
tokio = { version = "1", features = ["fs", "io-util", "macros", "net", "process", "rt-multi-thread"] }
url = "2"
