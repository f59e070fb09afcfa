[package]
name = "omni"
version = "0.1.0"
edition = "2021"
publish = false

[dependencies]
anyhow = "1"
base64 = "0.22"
clap = { version = "4", features = ["derive"] }
cpal = "0.15"
dirs = "6"
hound = "3.5"
reqwest = { version = "0.12", default-features = false, features = ["blocking", "json", "multipart", "rustls-tls"] }
serde = { version = "1", features = ["derive"] }
serde_json = "1"
shell-words = "1"
toml = "0.9"
tungstenite = { version = "0.28", features = ["rustls-tls-webpki-roots"] }
