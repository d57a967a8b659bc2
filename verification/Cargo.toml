[package]
name = "cryptiq_personal_lib"
version = "0.7.0"
edition = "2021"
publish = false

[dependencies]
sha2 = "0.10"
base64 = "0.22"
ml-kem = "0.2"
x25519-dalek = { version = "2", features = ["static_secrets"] }
rand = "0.8"
uuid = { version = "1", features = ["v4"] }
serde = { version = "1", features = ["derive"] }
serde_json = "1"
dirs = "5"
ureq = { version = "2", default-features = false, features = ["json"] }
rusqlite = { version = "0.31", features = ["bundled"] }
axum = "0.7"
tokio = { version = "1", features = ["macros", "rt-multi-thread", "net"] }
tower-http = { version = "0.5", features = ["cors"] }
parking_lot = "0.12"
