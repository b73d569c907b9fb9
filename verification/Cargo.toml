[package]
name = "onionws"
version = "0.1.0"
edition = "2021"
publish = false

[dependencies]
aes-gcm = "0.9"
async-std = "1"
async-tungstenite = { version = "*", features = ["async-std-runtime", "async-tls"] }
base64 = "0.13"
bytes = "1"
chrono = "0.4"
clap = "*"
ctrlc = "3"
env_logger = "*"
futures = "0.3"
log = "0.4"
openssl-probe = "0.1"
rand = "0.8"
rand_chacha = "0.3"
serde = { version = "1", features = ["derive"] }
serde_json = "1"
sha2 = "0.10"
socks = "0.3"
url = "2"
x25519-dalek = { version = "2", features = ["static_secrets"] }
