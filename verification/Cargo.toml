[package]
name = "mandelbrot"
version = "0.1.0"
edition = "2021"
publish = false

[dependencies]
num = "=0.4.3"
lazy_static = "=1.5.1"
wasm-bindgen = "=0.2.129"
js-sys = "=0.3.106"
web-sys = { version = "=0.3.106", features = [
    "OffscreenCanvas",
    "WebGl2RenderingContext",
    "WebGlBuffer",
    "WebGlFramebuffer",
    "WebGlProgram",
    "WebGlShader",
    "WebGlTexture",
    "WebGlUniformLocation",
    "Window",
] }
