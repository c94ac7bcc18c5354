[package]
name = "lirik"
version = "0.1.0"
edition = "2021"
publish = false

[dependencies]
tokio = { version = "*", features = ["full"] }
rspotify = { version = "*", default-features = false, features = ["client-reqwest", "reqwest-rustls-tls"] }
serde = { version = "*", features = ["derive"] }
serde_json = "*"
toml = "*"
dirs = "*"
open = "*"
libc = "*"
chrono = "*"
reqwest = { version = "*", default-features = false, features = ["json", "rustls-tls"] }
