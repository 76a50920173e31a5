[package]
name = "take_note"
version = "2.4.0"
edition = "2021"
publish = false

[dependencies]
chrono = "0.4"
clap = { version = "4", features = ["derive"] }
dialoguer = "*"
dirs = "*"
serde = { version = "1", features = ["derive"] }
serde_json = { version = "1", features = ["preserve_order"] }
tempfile = "3"
thiserror = "*"
toml = "*"
toml_edit = "*"
urlencoding = "2"
