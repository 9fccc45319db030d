[package]
name = "sdn_visualization"
version = "0.1.0"
edition = "2021"
publish = false

[dependencies]
atm0s-sdn-identity = "=0.2.0"
atm0s-sdn-network = "=0.3.1"
atm0s-sdn-router = "=0.1.4"
atm0s-sdn-utils = "=0.1.1"
log = "*"
parking_lot = "*"
serde = { version = "*", features = ["derive"] }
serde_json = "*"
actix-web = "*"
actix-cors = "*"
poem = "*"
rust-embed = "*"
