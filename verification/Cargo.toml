[package]
name = "pypi_index"
version = "0.1.0"
edition = "2021"
publish = false

[dependencies]
anyhow = "1"
askama = "*"
base64 = "0.22"
dotenv = "*"
flate2 = "1"
futures-util = "0.3"
ginger-shared-rs = "=0.51.0-nightly.0"
hex = "0.4"
jsonwebtoken = "9"
lapin = { version = "2", default-features = false }
md-5 = "0.10"
okapi = "0.7"
regex = "1"
reqwest = { version = "0.12", default-features = false, features = ["multipart", "rustls-tls"] }
rocket = { version = "0.5", features = ["json"] }
rocket_okapi = { version = "0.8", features = ["swagger"] }
rocket_prometheus = "0.10"
serde = { version = "1", features = ["derive"] }
serde_json = "1"
sha2 = "0.10"
tar = "0.4"
tokio = { version = "1", features = ["full"] }
zip = { version = "2", default-features = false, features = ["deflate"] }
