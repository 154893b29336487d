[package]
name = "mdns_discovery"
version = "0.1.0"
edition = "2021"
publish = false

[dependencies]
dns-parser = "0.8"
clap = { version = "3", features = ["derive"] }
clearscreen = "*"
colored = "2"
dns-lookup = "1"
interfaces = "*"
net2 = "0.2"
serde = { version = "1", features = ["derive"] }
serde_json = "1"
