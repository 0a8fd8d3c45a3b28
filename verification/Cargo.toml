[package]
name = "nyanpasu_core"
version = "0.1.0"
edition = "2021"
publish = false

[dependencies]
bytes = "=1.12.1"
camino = "=1.2.6"
chrono = "=0.4.45"
encoding_rs = "=0.8.44"
http-body-util = "=0.1.5"
hyper = { version = "=1.12.0", features = ["client", "http1"] }
hyper-util = { version = "=0.1.21", features = ["tokio"] }
interprocess = { version = "=2.4.7", features = ["tokio"] }
kill_tree = { version = "=0.2.4", features = ["tokio"] }
semver = "=1.0.28"
serde = { version = "=1.0.229", features = ["derive"] }
serde_json = "=1.0.154"
serde_urlencoded = "=0.7.1"
serde_yaml_ng = "=0.10.0"
thiserror = "=2.0.21"
tokio = { version = "=1.54.1", features = ["full"] }
tokio-util = { version = "=0.7.20", features = ["rt"] }
tracing = "=0.1.44"
url = "=2.5.8"
windows = { version = "0.58", features = ["Win32_Foundation", "Win32_Security", "Win32_Security_Authorization"] }
