[package]
name = "bustcall"
version = "0.1.0"
edition = "2021"
publish = false

[dependencies]
dashmap = "=6.2.1"
sha2 = "=0.11.0"
hex = "=0.4.3"
uuid = { version = "=1.27.0", features = ["v4"] }
rand = "=0.10.3"
serde = { version = "*", features = ["derive"] }
toml = "*"
