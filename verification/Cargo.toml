[package]
name = "valorant_watcher"
version = "0.1.0"
edition = "2021"
publish = false

[dependencies]
base64 = "0.22"
dirs = "6"
fs2 = "0.4"
futures-util = "0.3"
native-tls = "0.2"
open = "5"
regex = "1"
reqwest = { version = "0.12", features = ["json"] }
self_update = "0.42"
serde = { version = "1", features = ["derive"] }
serde_json = "1"
sha2 = "0.10"
sysinfo = "0.33"
thiserror = "2"
tokio = { version = "1", features = ["full"] }
tokio-tungstenite = { version = "0.26", features = ["native-tls"] }
tracing = "0.1"
tracing-appender = "0.2"
tracing-subscriber = "0.3"
uuid = { version = "1", features = ["v4"] }
winreg = "0.55"
