[package]
name = "jot"
version = "0.3.0"
edition = "2021"
publish = false

[dependencies]
anyhow = "1"
async-trait = "0.1"
base64 = "0.22"
cpal = "0.15"
dirs = "*"
hound = "3"
keyring = "*"
parking_lot = "0.12"
raw-window-handle = "0.6"
regex = "1"
reqwest = { version = "0.12", default-features = false, features = ["json"] }
rodio = { version = "0.20", default-features = false, features = ["wav"] }
rusqlite = { version = "*", features = ["bundled"] }
serde = { version = "1", features = ["derive"] }
serde_json = "1"
time = { version = "0.3", features = ["formatting", "local-offset", "macros", "parsing", "serde-well-known"] }
tokio = { version = "1", features = ["full"] }
tracing = "0.1"
tracing-appender = "0.2"
tracing-subscriber = { version = "0.3", features = ["env-filter"] }
uuid = { version = "1", features = ["serde", "v4"] }
