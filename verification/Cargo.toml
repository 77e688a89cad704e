[package]
name = "hap"
version = "0.1.0"
edition = "2021"
publish = false

[dependencies]
uuid = "=1.29.1"
rand = "=0.8.8"
hex = "=0.4.3"
serde = { version = "=1.0.229", features = ["derive"] }
serde_json = "=1.0.154"
thiserror = "=1.0.69"
tokio = { version = "=1.54.1", features = ["sync", "rt", "macros"] }
futures = "=0.3.34"
async-trait = "=0.1.92"
log = "=0.4.35"
erased-serde = "=0.3.31"
