[package]
name = "web_identity"
version = "0.1.0"
edition = "2021"
publish = false

[dependencies]
wasm-bindgen = "*"
web-sys = { version = "*", features = ["Window", "Navigator", "Document", "Location"] }
