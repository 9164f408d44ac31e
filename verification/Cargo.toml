[package]
name = "dbwrap"
version = "0.1.0"
edition = "2021"
publish = false

[dependencies]
anyhow = "1"
axum = "0.6"
hex = "0.4"
log = "0.4"
parking_lot = "0.12"
rocksdb = { version = "*", default-features = false }
serde = { version = "1", features = ["derive"] }
serde_json = "1"
sha2 = "0.10"
subtle = "2"
tokio = { version = "1", features = ["rt-multi-thread", "macros"] }
toml = "*"
