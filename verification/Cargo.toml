[package]
name = "br_protocol"
version = "0.1.0"
edition = "2021"
publish = false

[dependencies]
smallvec = "1"
embedded-io-async = "0.6"
bytemuck = { version = "1", features = ["derive"] }
num-traits = { version = "0.2", default-features = false }
cfg-if = "1"
