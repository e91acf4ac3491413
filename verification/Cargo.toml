[package]
name = "bpl"
version = "0.1.0"
edition = "2021"
publish = false

[dependencies]
crc32fast = "=1.5.4"
hmac = "=0.12.1"
sha2 = "=0.10.9"
hkdf = "=0.12.4"
aes-gcm = "=0.10.3"
subtle = "=2.6.1"
rand = "=0.8.8"
base64 = "=0.21.7"
chrono = "=0.4.45"
tokio = { version = "=1.54.1", features = ["sync", "rt-multi-thread", "macros", "time", "signal", "fs", "io-util"] }
serde = { version = "=1.0.229", features = ["derive"] }
serde_json = "=1.0.154"
toml = "=0.8.23"
config = "=0.14.1"
dirs = "=5.0.1"
r2d2 = "=0.8.10"
r2d2_sqlite = { version = "=0.24.0", features = ["bundled"] }
clap = { version = "=4.6.7", features = ["derive", "env"] }
anyhow = "=1.0.104"
thiserror = "=1.0.69"
async-trait = "=0.1.92"
tracing = "=0.1.44"
tracing-subscriber = { version = "=0.3.23", features = ["env-filter", "json"] }
uuid = "=1.29.0"
crc = "3"
