[package]
name = "chip8"
version = "0.1.0"
edition = "2021"
publish = false

[dependencies]
getrandom = "0.2"
wasm-bindgen = "0.2"
console_error_panic_hook = "0.1"
wee_alloc = "0.4"
