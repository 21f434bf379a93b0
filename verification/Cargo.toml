[package]
name = "vylo_share"
version = "0.1.0"
edition = "2021"
publish = false

[dependencies]
sha2 = "=0.11.1"
hmac = "=0.13.0"
spake2 = "=0.4.0"
rand = "=0.8.8"
png = "=0.17.16"
serde_json = "=1.0.154"
serde = { version = "=1.0.229", features = ["derive"] }
bincode = "=1.3.3"
thiserror = "=2.0.21"
log = "=0.4.35"
env_logger = "=0.11.11"
tokio = { version = "=1.54.1", features = ["rt", "net", "io-util", "sync", "time", "macros", "fs"] }
tokio-util = "=0.7.20"
tokio-rustls = { version = "=0.26.6", default-features = false, features = ["ring", "tls12", "logging"] }
arboard = "=3.7.0"
mdns-sd = "=0.13.11"
gethostname = "=0.5.0"
dirs = "=5.0.1"
local-channel = "=0.1.5"
webrtc-dtls = { version = "=0.12.0", features = ["pem"] }
core-foundation-sys = "=0.8.7"
