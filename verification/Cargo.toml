[package]
name = "light_client"
version = "0.1.0"
edition = "2021"
publish = false

[dependencies]
anyhow = "1"
ethers-core = "2"
getset = "0.1"
reqwest = { version = "0.12", features = ["json"] }
serde_json = "1"
thiserror = "1"
