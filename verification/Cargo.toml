[package]
name = "hotl"
version = "0.1.0"
edition = "2021"
publish = false

[dependencies]
serde = { version = "=1.0.229", features = ["derive"] }
serde_json = { version = "=1.0.154", features = ["float_roundtrip", "unbounded_depth"] }
toml = "=0.8.23"
toml_edit = "=0.22.27"
dunce = "=1.0.5"
tokio = { version = "=1.54.1", features = ["rt-multi-thread", "macros", "io-util", "net", "sync", "time", "process", "signal", "fs", "io-std"] }
reqwest = { version = "=0.12.28", default-features = false, features = ["rustls-tls"] }
futures-util = "=0.3.34"
windows-sys = { version = "=0.61.2", features = ["Win32_Foundation", "Win32_Security", "Win32_System_JobObjects", "Win32_System_Threading"] }
