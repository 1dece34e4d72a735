[package]
name = "jwtgen"
version = "0.1.0"
edition = "2021"
publish = false

[dependencies]
anyhow = "1"
clap = { version = "4", features = ["derive"] }
humantime = "2"
josekit = "*"

[dev-dependencies]
base64 = "*"
serde_json = "1"
