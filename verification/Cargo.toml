[package]
name = "rustconn"
version = "0.1.0"
edition = "2021"
publish = false

[dependencies]
async-channel = "=2.5.0"
chrono = "=0.4.45"
dirs = "=7.0.0"
gettext-rs = { version = "=0.7.7", features = ["gettext-system"] }
nix = { version = "=0.31.3", features = ["signal", "process", "term", "fs", "ioctl", "poll"] }
secrecy = "=0.10.3"
serde_json = "=1.0.154"
thiserror = "=2.0.21"
tokio = { version = "=1.54.1", features = ["rt", "time", "process", "io-util", "macros"] }
tracing = "=0.1.44"
uuid = { version = "=1.29.0", features = ["v4"] }
zeroize = "=1.9.1"
