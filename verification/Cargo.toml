[package]
name = "chess_core"
version = "0.1.0"
edition = "2021"
publish = false

[dependencies]
js-sys = "*"
serde = "*"
serde-wasm-bindgen = "*"
wasm-bindgen = "*"
