[package]
name = "typingsucks"
version = "0.1.0"
edition = "2021"
publish = false

[dependencies]
anyhow = "1"
arboard = { version = "3", default-features = false }
clap = { version = "4", features = ["derive"] }
crossbeam-channel = "0.5"
ctrlc = "3"
dirs = "5"
evdev = "0.12"
futures-util = "0.3"
libc = "0.2"
nnnoiseless = { version = "0.5", default-features = false }
reqwest = { version = "0.12", default-features = false, features = ["blocking", "multipart", "json", "stream", "rustls-tls"] }
rubato = "0.15"
serde = { version = "1", features = ["derive"] }
serde_json = "1"
tokio = { version = "1", features = ["rt-multi-thread", "fs", "io-util"] }
toml = "0.8"
tracing = "0.1"
tracing-subscriber = { version = "0.3", features = ["env-filter"] }
whisper-rs = "0.12"
