[package]
name = "perfetto-recorder"
version = "0.1.0"
edition = "2021"
publish = false

[dependencies]
fastant = "0.1"
nix = { version = "*", features = ["process"] }
prost = "0.14"
rand = "0.9"
