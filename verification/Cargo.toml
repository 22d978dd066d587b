[package]
name = "duplo"
version = "0.1.0"
edition = "2021"
publish = false

[dependencies]
anyhow = "1"
argh = "0.1"
askama = "0.12"
askama_axum = "0.3"
axum = { version = "0.6", features = ["multipart", "macros"] }
futures = "0.3"
humansize = "2"
include_dir = "0.7"
mime_guess = "2"
renamore = "0.3"
serde = { version = "1", features = ["derive"] }
time = { version = "0.3", features = ["parsing"] }
tokio = { version = "1", features = ["rt", "macros", "fs", "io-util"] }
tokio-util = { version = "0.7", features = ["codec"] }
tower-http = { version = "0.4", features = ["fs", "trace", "set-header"] }
tracing = "0.1"
tracing-subscriber = "0.3"
