[package]
name = "json_api"
version = "0.1.0"
edition = "2021"
publish = false

[dependencies]
serde = { version = "1", features = ["derive"] }
serde_json = "1"
http = "*"
serde_path_to_error = "*"
thiserror = "*"
