[package]
name = "rs_templating"
version = "0.1.0"
edition = "2021"
publish = false

[dependencies]
tera = "=1.20.1"
serde_json = "=1.0.151"
libc = "=0.2.190"
wasm-bindgen = "=0.2.129"
