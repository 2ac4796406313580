[package]
name = "plexpaper"
version = "0.1.0"
edition = "2021"
publish = false

[dependencies]
minecraft-protocol = "*"
flate2 = "1"
shlex = "1.3"
md-5 = "0.10"
base64 = "0.22"
chrono = "0.4"
serde = { version = "1", features = ["derive"] }
serde_json = "1"
tokio = { version = "1", features = ["net", "macros", "time", "rt-multi-thread", "sync", "fs", "io-util", "signal", "process"] }
futures = { version = "0.3", default-features = false, features = ["executor", "std"] }
bytes = "1"
nix = { version = "0.28", features = ["process", "signal"] }
notify = "6"
notify-debouncer-mini = "0.4"
rcon = { version = "0.6", features = ["rt-tokio"] }
rand = "0.8"
colored = "2"
env_logger = "0.10"
log = "0.4"
anyhow = "1"
