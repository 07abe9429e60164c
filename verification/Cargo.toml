[package]
name = "p2p_transport"
version = "0.1.0"
edition = "2021"
publish = false

[dependencies]
bytes = "1"
snow = "*"
thiserror = "*"
tokio = { version = "1", features = ["full"] }
