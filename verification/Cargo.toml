[package]
name = "adblocker"
version = "0.1.0"
edition = "2021"
publish = false

[dependencies]
hashbrown = "*"
regex = "*"
serde = "*"
serde_json = "*"
wasm-bindgen = "*"
web-sys = { version = "*", features = ["console"] }
