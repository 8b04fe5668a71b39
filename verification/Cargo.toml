[package]
name = "how_to_create_bgp"
version = "0.1.0"
edition = "2021"
publish = false

[dependencies]
anyhow = "1"
bytes = "1"
futures = "0.3"
ipnetwork = { version = "0.20", default-features = false }
rtnetlink = "0.13"
tokio = { version = "1", features = ["full"] }
