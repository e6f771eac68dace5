[package]
name = "handy_app_lib"
version = "0.1.0"
edition = "2021"
publish = false

[dependencies]
sha2 = "*"
chrono = "*"
rusqlite = { version = "*", features = ["bundled", "backup"] }
serde = { version = "*", features = ["derive"] }
serde_json = "*"
uuid = { version = "*", features = ["v7"] }
hound = "*"
log = "*"
anyhow = "*"
rodio = { version = "*", default-features = false }
