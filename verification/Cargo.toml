[package]
name = "slideglance"
version = "0.1.0"
edition = "2021"
publish = false

[dependencies]
image = { version = "0.25", default-features = false, features = ["png", "bmp", "jpeg", "gif"] }
serde = { version = "1", features = ["derive"] }
ttf-parser = "0.25"
fontdb = "0.23"
font-kit = "0.14"
unicode-normalization = "0.1"
wasm-bindgen = "0.2"
js-sys = "0.3"
console_error_panic_hook = "0.1"
