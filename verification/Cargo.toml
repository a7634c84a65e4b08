[package]
name = "simple_core"
version = "0.1.0"
edition = "2021"
publish = false

[dependencies]
bincode = "1.3"
clap = { version = "4", features = ["derive"] }
k256 = { version = "0.13", features = ["ecdsa", "sha256"] }
rand = "0.8"
rand_core = { version = "0.6", features = ["getrandom"] }
risc0-zkvm = { version = "*", default-features = false, features = ["client", "std"] }
serde = { version = "1", features = ["derive"] }
serde_json = "1"
tracing-subscriber = { version = "0.3", features = ["env-filter"] }
