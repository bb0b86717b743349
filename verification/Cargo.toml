[package]
name = "paperless_bridge"
version = "0.1.0"
edition = "2021"
publish = false

[dependencies]
async-tempfile = "0.8"
async-trait = "0.1"
clap = { version = "4", features = ["derive", "env"] }
color-eyre = "0.6"
env_logger = "0.11"
libunftp = "=0.21.1"
log = "0.4"
reqwest = { version = "0.12", default-features = false, features = ["json", "multipart", "rustls-tls", "stream"] }
serde = { version = "1", features = ["derive"] }
tokio = { version = "1", features = ["full"] }
