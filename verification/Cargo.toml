[package]
name = "snakez"
version = "0.1.0"
edition = "2021"
publish = false

[dependencies]
ndarray = "=0.17.2"
rand = "=0.10.3"
console_engine = { version = "=2.6.1", features = ["event"] }
