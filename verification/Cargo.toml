[package]
name = "lszr"
version = "0.1.0"
edition = "2021"
publish = false

[dependencies]
encoding_rs = "0.8"
libflate = "1"
podio = "0.1"
js-sys = "0.3"
wasm-bindgen = "0.2"
