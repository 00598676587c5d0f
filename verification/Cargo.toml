[package]
name = "chatbang"
version = "0.1.0"
edition = "2021"
publish = false

[dependencies]
anyhow = "1"
async-trait = "0.1"
chromiumoxide = { version = "*", default-features = false, features = ["tokio-runtime"] }
clap = { version = "4", features = ["derive"] }
dirs = "*"
futures = "0.3"
reqwest = { version = "0.12", default-features = false, features = ["json", "rustls-tls"] }
schemars = "0.8"
serde = { version = "1", features = ["derive"] }
serde_json = "1"
termimad = "*"
tokio = { version = "1", features = ["full"] }
which = "*"
