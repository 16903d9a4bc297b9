[package]
name = "up_test_agent"
version = "0.1.0"
edition = "2021"
publish = false

[dependencies]
base64 = "0.21"
serde = { version = "1", features = ["derive"] }
serde_json = "1"
protobuf = "3"
prost = "0.12"
up-rust = "0.1"
tokio = { version = "1", features = ["full"] }
async-trait = "0.1"
log = "0.4"
