[package]
name = "rusty_vv"
version = "0.1.0"
edition = "2021"
publish = false

[dependencies]
uuid = { version = "*", features = ["v4"] }
base64 = "=0.22.1"
serde = { version = "*", features = ["derive"] }
serde_json = "*"
axum = "=0.7.9"
tokio = { version = "*", features = ["full"] }
tower-http = { version = "=0.5.2", features = ["cors", "trace"] }
clap = { version = "*", features = ["derive"] }
tracing = "*"
tracing-subscriber = "*"
url = "*"
http = "*"
image = { version = "=0.24.9", default-features = false, features = ["png"] }
imageproc = "=0.23.1"
rusttype = "=0.9.3"
process_path = "*"
