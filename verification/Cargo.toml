[package]
name = "roqtune"
version = "0.1.0"
edition = "2021"
publish = false

[dependencies]
dirs = "5"
governor = "0.6"
keyring = "3"
log = "0.4"
mdns-sd = "0.11"
native-tls = "0.2"
rusqlite = "0.31"
serde = { version = "1", features = ["derive"] }
serde_json = "1"
symphonia = "0.5"
tokio = { version = "1", default-features = false, features = ["sync"] }
toml = "0.8"
toml_edit = "0.22"
ureq = { version = "2", default-features = false, features = ["json"] }
urlencoding = "2"
uuid = { version = "1", features = ["v4"] }
