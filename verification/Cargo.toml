[package]
name = "kvs3"
version = "0.1.0"
edition = "2021"
publish = false

[dependencies]
blake3 = "=1.8.7"
serde = { version = "=1.0.229", features = ["derive"] }
serde_json = { version = "=1.0.151", features = ["preserve_order"] }
rust-s3 = "=0.38.0"
warp = { version = "=0.4.3", features = ["server"] }
tokio = { version = "=1.53.2", features = ["full"] }
log = "=0.4.34"
env_logger = "=0.11.11"
openssl-probe = "=0.2.1"
pico-args = "=0.5.0"
