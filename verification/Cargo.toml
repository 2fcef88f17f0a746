[package]
name = "finlang_core"
version = "0.1.3"
edition = "2021"
publish = false

[dependencies]
curve25519-dalek = { version = "=4.1.3", features = ["rand_core", "digest"] }
rand_core = { version = "=0.6.4", features = ["getrandom"] }
sha2 = "=0.10.9"
reqwest = { version = "=0.12.28", default-features = false, features = ["blocking", "json", "rustls-tls"] }
serde_json = "=1.0.154"
