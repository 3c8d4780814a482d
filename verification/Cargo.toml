[package]
name = "sharex_upload"
version = "0.1.0"
edition = "2021"
publish = false

[dependencies]
anyhow = "1"
axum = { version = "0.6", features = ["multipart"] }
dotenv = "0.15"
log = "0.4"
mime_guess = "=2.0.5"
rand = "=0.8.8"
simple_logger = "2"
tokio = { version = "1", features = ["full"] }
