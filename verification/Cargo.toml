[package]
name = "orca"
version = "0.1.0"
edition = "2021"
publish = false

[dependencies]
actix-files = "0.6"
actix-web = { version = "4", features = ["rustls-0_23"] }
anyhow = "1"
argon2 = { version = "=0.5.3", features = ["std"] }
base64 = "0.22"
clap = { version = "4", features = ["derive"] }
dirs = "*"
html2text = "*"
once_cell = "1"
rusqlite = { version = "*", features = ["bundled"] }
rustls = "0.23"
rustls-pemfile = "2"
serde = "1"
serde_derive = "1"
serde_json = "1"
tera = { version = "1", default-features = false }
toml = "0.8"
