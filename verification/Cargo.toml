[package]
name = "omnidisc"
version = "0.1.0"
edition = "2021"
publish = false

[dependencies]
serde = { version = "=1.0.229", features = ["derive"] }
serde_json = "=1.0.154"
serde_repr = "=0.1.21"
chacha20poly1305 = "=0.10.1"
rand = "=0.10.3"
sha2 = "=0.10.9"
thiserror = "=2.0.21"
data-encoding = "2"
