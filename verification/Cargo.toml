[package]
name = "bifrost"
version = "0.1.0"
edition = "2021"
publish = false

[dependencies]
anyhow = "1"
axum = "0.7"
base64 = "0.22"
bincode = "1"
chrono = "0.4"
clap = { version = "4", features = ["derive"] }
crossbeam = "0.8"
csv = "1"
exacl = "0.12"
libc = "0.2"
log = "0.4"
nix = { version = "0.29", features = ["resource"] }
rusqlite = { version = "0.31", features = ["bundled"] }
serde = { version = "1", features = ["derive"] }
serde_json = "1"
sha2 = "0.10"
tokio = { version = "1", features = ["full"] }
uuid = { version = "1", features = ["v4"] }
walkdir = "2"
xattr = "1"

[dev-dependencies]
tempfile = "3"
