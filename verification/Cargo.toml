[package]
name = "tlstun"
version = "0.1.0"
edition = "2021"
publish = false

[dependencies]
etherparse = "*"
serde_json = "*"
tokio = { version = "*", features = ["full"] }
futures = "*"
log = "*"
env_logger = "*"
clap = "*"
openssl = "*"
tokio-openssl = "*"
tun = { version = "*", features = ["async"] }
config = { version = "*", default-features = false, features = ["json"] }
