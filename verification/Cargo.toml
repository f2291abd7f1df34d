[package]
name = "logion_loc"
version = "0.1.0"
edition = "2021"
publish = false

[dev-dependencies]
sha2 = "*"
blake2 = "*"
