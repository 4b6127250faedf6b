[package]
name = "fiber_types"
version = "0.1.0"
edition = "2021"
publish = false

[dependencies]
secp256k1 = { version = "=0.28.2", features = ["serde", "rand-std"] }
musig2 = { version = "=0.4.1", features = ["serde"] }
molecule = "=0.7.5"
ckb-types = "=1.1.4"
hex = "=0.4.3"
serde = { version = "=1.0.229", features = ["derive"] }
serde_with = { version = "=3.24.0", features = ["base64"] }
thiserror = "=1.0.69"
once_cell = "=1.21.4"
log = "=0.4.35"
ractor = "=0.16.5"
tentacle = "=0.7.7"
tokio = { version = "=1.54.1", features = ["full"] }
tokio-util = { version = "=0.7.19", features = ["rt"] }

[dev-dependencies]
serde_json = "=1.0.154"
