[package]
name = "oelimg-rs"
version = "0.1.0"
edition = "2021"
publish = false

[dependencies]
image = { version = "0.24", default-features = false, features = ["png", "jpeg", "webp", "ico", "gif", "bmp", "tiff"] }
fast_image_resize = "2"
resvg = "0.37"
usvg = "0.37"
tiny-skia = "0.11"
fontdb = "0.16"
wasm-bindgen = "0.2"
console_error_panic_hook = "0.1"
