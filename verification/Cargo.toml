[package]
name = "fhe_darkpool_poc"
version = "0.1.0"
edition = "2021"
publish = false

[dependencies]
bincode = "=1.3.3"
rand = "=0.9.5"
serde = { version = "=1.0.229", features = ["derive"] }
tfhe = { version = "=0.8.7", default-features = false, features = ["integer", "x86_64-unix"] }
