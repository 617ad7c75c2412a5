[package]
name = "hydra_player"
version = "0.1.0"
edition = "2021"
publish = false

[dependencies]
url = "=2.5.8"
serde = { version = "=1.0.229", features = ["derive"] }
serde_json = "=1.0.154"
reqwest = { version = "=0.12.28", default-features = false, features = ["json", "stream", "rustls-tls", "multipart"] }
tokio = { version = "=1.54.1", features = ["rt-multi-thread", "macros", "time", "fs", "io-util", "sync"] }
futures-util = "=0.3.34"
ringbuf = "=0.3.3"
sysinfo = "=0.30.13"
libc = "=0.2.191"
