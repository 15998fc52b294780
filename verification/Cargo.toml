[package]
name = "nimiq_validator"
version = "0.1.0"
edition = "2021"
publish = false

[dependencies]
ark-ff = "=0.4.2"
ark-r1cs-std = "=0.4.0"
ark-relations = "=0.4.0"
blake2 = "=0.10.6"
blst = "=0.3.17"
futures = "=0.3.34"
hex = "=0.4.3"
log = "=0.4.34"
p256 = { version = "=0.13.2", features = ["ecdsa"] }
parking_lot = "=0.12.5"
postcard = { version = "1", default-features = false, features = ["alloc"] }
serde = { version = "=1.0.229", features = ["derive"] }
