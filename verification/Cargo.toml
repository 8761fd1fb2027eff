[package]
name = "lumina_core"
version = "0.1.0"
edition = "2021"
publish = false

[dependencies]
chrono = "0.4"
ed25519-dalek = { version = "2", features = ["rand_core"] }
hex = "0.4"
log = "0.4"
rand = "0.8"
serde = { version = "1", features = ["derive"] }
sha2 = "0.10"
thiserror = "1"
tracing = "0.1"
tracing-subscriber = { version = "0.3", features = ["env-filter", "json"] }
uuid = { version = "1", features = ["v4"] }
