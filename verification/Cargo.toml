[package]
name = "stock_renderer"
version = "0.1.0"
edition = "2021"
publish = false

[dependencies]
js-sys = "0.3"
wasm-bindgen = "0.2"
web-sys = { version = "0.3", features = ["Document", "Element", "HtmlCanvasElement", "ShadowRoot", "WebGl2RenderingContext", "WebGlBuffer", "WebGlProgram", "WebGlRenderingContext", "WebGlShader", "Window", "console"] }
