[package]
name = "landscape"
version = "0.1.0"
edition = "2021"
publish = false

[dependencies]
dhcproto = "=0.15.0"
sha2 = "=0.10.9"
toml_edit = "=0.25.18"
regex = "=1.13.1"
rand = "=0.9.5"
uuid = { version = "=1.29.1", features = ["v4"] }
tokio = { version = "=1.54.1", features = ["rt-multi-thread", "macros", "net", "time", "sync", "io-util", "fs"] }
socket2 = { version = "=0.5.10", features = ["all"] }
clap = { version = "=4.6.7", features = ["derive"] }
ctrlc = "=3.5.2"
serde = { version = "=1.0.229", features = ["derive"] }
serde_json = "=1.0.154"
tracing = "=0.1.44"
tracing-subscriber = "=0.3.23"
tracing-appender = "=0.2.5"
toml = "=1.2.1"
fs2 = "=0.4.3"
dashmap = "6"
futures = "0.3"
rtnetlink = "*"
bollard = "*"
