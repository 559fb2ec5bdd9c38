[package]
name = "gws"
version = "0.1.0"
edition = "2021"
publish = false

[dependencies]
clap = "4"
futures-util = "0.3"
reqwest = { version = "0.12", default-features = false, features = ["json", "rustls-tls"] }
serde_json = "1"
