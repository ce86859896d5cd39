[package]
name = "nuclear_core"
version = "0.1.0"
edition = "2021"
publish = false

[dependencies]
regex = "=1.13.1"
url = "=2.5.8"
uuid = { version = "=1.29.0", features = ["v4"] }
getrandom = "=0.4.3"
minisign-verify = "=0.2.5"
serde = { version = "=1.0.229", features = ["derive"] }
serde_json = "=1.0.154"
sha2 = "=0.10.9"
semver = "=1.0.28"
dirs = "=6.0.0"
tokio = { version = "=1.54.1", features = ["sync", "rt", "macros", "io-util", "fs", "process", "time"] }
tokio-util = "=0.7.20"
futures-util = "=0.3.34"
