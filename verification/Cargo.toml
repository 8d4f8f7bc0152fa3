[package]
name = "mod_catalog"
version = "0.1.0"
edition = "2021"
publish = false

[dependencies]
heck = "0.5"
indexmap = "2"
serde = { version = "1", features = ["derive"] }
serde_json = "1"
log = "0.4"
eyre = "0.6"
tokio = { version = "1", features = ["time"] }
reqwest = { version = "0.12", default-features = false, features = ["rustls-tls"] }
tauri = { version = "2", default-features = false }
