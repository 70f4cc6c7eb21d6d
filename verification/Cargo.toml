[package]
name = "typed4safety"
version = "0.1.0"
edition = "2021"
publish = false

[dependencies]
num = "0.4"
typenum = "1"
uom = { version = "*", features = ["u64", "f64", "si", "std"] }
