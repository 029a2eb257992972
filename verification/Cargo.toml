[package]
name = "reusing_vec"
version = "0.1.0"
edition = "2021"
publish = false

[dev-dependencies]
smallvec = "=1.16.2"
