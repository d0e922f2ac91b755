[package]
name = "thumbor"
version = "0.1.0"
edition = "2021"
publish = false

[dependencies]
photon-rs = "=0.3.3"
image = "=0.24.9"
lru = { version = "=0.7.8", default-features = false }
anyhow = "1"
axum = "0.6"
bytes = "1"
percent-encoding = "2"
reqwest = { version = "0.11", default-features = false, features = ["rustls-tls"] }
serde = { version = "1", features = ["derive"] }
tokio = { version = "1", features = ["macros", "rt-multi-thread", "sync"] }
tower = { version = "0.4", features = ["limit", "load-shed", "timeout", "util"] }
tower-http = { version = "0.4", features = ["add-extension", "compression-gzip", "trace"] }
tracing = "0.1"
tracing-subscriber = "0.3"
