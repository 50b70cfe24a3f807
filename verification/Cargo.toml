[package]
name = "referenda"
version = "0.1.0"
edition = "2021"
publish = false

[dependencies]
sp-io = "*"

[dev-dependencies]
parity-scale-codec = "*"
