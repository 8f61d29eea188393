[package]
name = "ark_client"
version = "0.1.0"
edition = "2021"
publish = false

[dependencies]
async-stream = "0.3"
base64 = "0.22"
bitcoin = { version = "0.32", features = ["rand-std"] }
futures = "0.3"
log = "0.4"
rand = "0.8"
secp256k1-zkp = { version = "0.11", features = ["rand-std"] }
tokio = { version = "1", features = ["rt", "time"] }
tonic = { version = "0.12", default-features = false, features = ["codegen", "transport"] }
tracing = "0.1"
