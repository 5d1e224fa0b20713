[package]
name = "putioarr"
version = "0.1.0"
edition = "2021"
publish = false

[dependencies]
actix-rt = "=2.15.0"
actix-web = "=4.18.1"
actix-web-httpauth = "=0.8.3"
anyhow = "=1.0.104"
async-channel = "=2.5.0"
async-recursion = "=1.2.0"
base64 = "=0.22.1"
chrono = "=0.4.45"
clap = { version = "=4.6.7", features = ["derive", "env"] }
colored = "=2.2.0"
directories = "=5.0.1"
env_logger = "=0.10.2"
figment = { version = "=0.10.19", features = ["toml"] }
in-container = "=1.1.0"
lava_torrent = "=0.11.1"
log = "=0.4.35"
magnet-url = "=2.0.0"
nix = { version = "=0.27.1", features = ["fs", "term"] }
reqwest = { version = "=0.11.27", default-features = false, features = ["json", "multipart"] }
serde = { version = "=1.0.229", features = ["derive"] }
serde_json = "=1.0.154"
tokio = { version = "=1.54.1", features = ["full"] }
urldecode = "=0.1.1"
