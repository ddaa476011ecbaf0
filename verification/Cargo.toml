[package]
name = "yage"
version = "0.1.0"
edition = "2021"
publish = false

[dependencies]
crossbeam-queue = "0.3"
midly = "0.5"
hound = "3.5"
serde = { version = "1", features = ["derive"] }
libc = "0.2"
