[package]
name = "flow_lib"
version = "0.1.0"
edition = "2021"
publish = false

[dependencies]
chrono = "=0.4.45"
env_logger = "=0.11.11"
log = "=0.4.34"
mime_guess = "=2.0.5"
rand = "=0.8.8"
reqwest = { version = "=0.12.28", default-features = false }
rusqlite = "=0.31.0"
serde = { version = "=1.0.229", features = ["derive"] }
shellexpand = "=3.1.2"
thiserror = "=1.0.69"
tokio = { version = "=1.54.1", features = ["fs", "io-util", "macros", "rt-multi-thread", "sync", "time"] }
toml = "=0.8.23"
urlencoding = "=2.1.3"
zbus = { version = "=4.4.0", default-features = false, features = ["tokio"] }
zvariant = "=4.2.0"
