[package]
name = "revm-inspectors"
version = "0.1.0"
edition = "2021"
publish = false

[dependencies]
alloy-primitives = { version = "0.7", default-features = false, features = ["std"] }
alloy-rpc-types-trace = "0.1"
revm = { version = "10", default-features = false, features = ["std"] }
