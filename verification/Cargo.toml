[package]
name = "scanet"
version = "0.1.0"
edition = "2021"
publish = false

[dependencies]
anyhow = "1"
crossterm = "0.28"
dns-lookup = "2"
local-ip-address = "0.6"
mac_oui = { version = "0.4", features = ["with-db"] }
ratatui = "0.29"
reqwest = { version = "0.12", default-features = false, features = ["rustls-tls"] }
tokio = { version = "1", features = ["full"] }
