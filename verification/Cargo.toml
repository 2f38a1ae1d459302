[package]
name = "rust-rsi"
version = "0.1.0"
edition = "2021"
publish = false

[dependencies]
ciborium = "=0.2.2"
coset = "=0.3.8"
ecdsa = { version = "=0.16.9", features = ["verifying"] }
nix = { version = "0.30", features = ["ioctl", "fs"] }
p256 = { version = "=0.13.2", features = ["ecdsa"] }
p384 = { version = "=0.13.1", features = ["ecdsa"] }
p521 = { version = "=0.13.3", features = ["ecdsa"] }
sha2 = "=0.10.9"
