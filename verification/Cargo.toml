[package]
name = "webex"
version = "0.1.0"
edition = "2021"
publish = false

[dependencies]
log = "0.4"
parse_link_header = "*"
reqwest = { version = "0.12", features = ["json"] }
serde = { version = "1", features = ["derive"] }
serde_json = "1"
serde_with = "3"
