[package]
name = "xiv_packet_tools"
version = "0.1.0"
edition = "2021"
publish = false

[dependencies]
prost = "*"
serde = { version = "*", features = ["derive"] }
serde_json = "*"
zip = { version = "*", default-features = false, features = ["deflate"] }
zstd = "*"
