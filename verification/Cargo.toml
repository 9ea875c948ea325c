[package]
name = "lcore-node"
version = "0.1.0"
edition = "2021"
publish = false

[dependencies]
aes-gcm = "0.10"
anyhow = "1"
axum = "0.6"
base64 = "0.22"
byteorder = "1"
chacha20poly1305 = "0.10"
chrono = "0.4"
hex = "0.4"
hyper = { version = "0.14", features = ["full"] }
josekit = "0.8"
json = "0.12"
rusqlite = { version = "0.31", features = ["bundled"] }
serde = { version = "1", features = ["derive"] }
serde_json = "1"
sha2 = "0.10"
thiserror = "1"
tokio = { version = "1", features = ["full"] }
