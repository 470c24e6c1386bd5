[package]
name = "oracle_steam"
version = "0.1.0"
edition = "2021"
publish = false

[dependencies]
rand = "0.8"
sha2 = "0.10"
hmac = "0.12"
base64 = "0.22"
aes = "0.8"
rsa = "0.9"
serde = { version = "1", features = ["derive"] }
serde_json = "1"
parking_lot = "0.12"
lazy_static = "1"
once_cell = "1"
log = "0.4"
tokio = { version = "1", features = ["rt-multi-thread", "macros", "sync", "net", "io-util", "time"] }
clap = { version = "4", features = ["derive"] }
dialoguer = "0.11"
anyhow = "1"
winapi = { version = "0.3", features = ["sysinfoapi", "fileapi", "winbase", "handleapi"] }
