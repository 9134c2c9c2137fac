[package]
name = "wallet_config"
version = "0.1.0"
edition = "2021"
publish = false

[dependencies]
bdk = { version = "=0.30.2", default-features = false, features = ["std", "electrum", "rpc"] }
bitcoin = "=0.30.3"
