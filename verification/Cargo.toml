[package]
name = "haxball_live_protocol"
version = "0.1.0"
edition = "2021"
publish = false

[dependencies]
prost = { version = "0.13", features = ["derive"] }
thiserror = "*"
