[package]
name = "exonum"
version = "0.1.0"
edition = "2021"
publish = false

[dependencies]
base64 = "=0.23.1"
bit-vec = "=0.10.1"
byteorder = "=1.5.0"
chrono = "=0.4.45"
clap = "=4.6.7"
ed25519-dalek = "=2.2.0"
env_logger = "=0.11.11"
hyper = "=1.12.0"
iron = "=0.6.1"
jsonway = "=2.0.0"
rand = "=0.8.8"
rust_decimal = "=1.43.0"
rustless = "=0.9.0"
serde = { version = "=1.0.229", features = ["derive"] }
serde_json = "=1.0.154"
sha2 = "=0.10.9"
time = "=0.3.55"
uuid = "=1.29.0"
valico = "=4.0.0"
