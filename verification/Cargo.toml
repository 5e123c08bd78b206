[package]
name = "createxcrunch"
version = "0.1.0"
edition = "2021"
publish = false

[dependencies]
alloy-primitives = { version = "0.7", features = ["getrandom"] }
itertools = "0.13"
ocl = "0.19"
rand = "0.8"
