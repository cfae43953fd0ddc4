[package]
name = "export_findmy"
version = "0.1.0"
edition = "2021"
publish = false

[dependencies]
async-trait = "0.1"
chrono = "0.4"
hex = "0.4"
libc = "0.2"
plist = "1.7"
pretty_env_logger = "0.5"
rand = "0.8"
serde_json = "1"
sha2 = "0.10"
tokio = { version = "1", features = ["full"] }
toml_edit = "0.21"
uuid = { version = "1", features = ["v4"] }
