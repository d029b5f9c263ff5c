[package]
name = "minicurl"
version = "0.1.0"
edition = "2021"
publish = false

[dependencies]
url = "2"
serde_json = { version = "1", features = ["preserve_order"] }
reqwest = { version = "0.11", features = ["blocking"] }
structopt = "0.3"
