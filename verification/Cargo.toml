[package]
name = "webthings_gateway"
version = "0.1.0"
edition = "2021"
publish = false

[dependencies]
anyhow = "1"
async-process = "1"
bcrypt = "0.10"
dirs = "4"
flate2 = "1"
fs_extra = "1"
futures = "0.3"
hex = "0.4"
httparse = "1"
log = "0.4"
regex = "1"
reqwest = { version = "0.11", default-features = false }
rusqlite = { version = "0.26", features = ["bundled"] }
serde = { version = "1", features = ["derive"] }
serde_json = "1"
sha256 = "=1.0.3"
simplelog = "0.12"
tar = "0.4"
tempdir = "0.3"
tokio = { version = "1", features = ["full"] }
tokio-tungstenite = "0.16"
urlencoding = "2"
uuid = { version = "1", features = ["v4"] }
webthings-gateway-ipc-types = "=1.0.0-alpha.2"
