[package]
name = "watchtower_plugin"
version = "0.1.0"
edition = "2021"
publish = false

[dependencies]
bitcoin = { version = "*", features = ["secp-recovery", "rand-std"] }
chacha20poly1305 = "*"
cln-plugin = "0.1"
tokio = { version = "1", features = ["full"] }
serde = { version = "1", features = ["derive"] }
serde_json = "1"
home = "*"
log = "0.4"
toml = "*"
structopt = "0.3"
