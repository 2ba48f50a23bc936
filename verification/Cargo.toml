[package]
name = "walk_the_dog"
version = "0.1.0"
edition = "2021"
publish = false

[dependencies]
rand = "*"
anyhow = "*"
async-trait = "*"
console_error_panic_hook = "*"
futures = "*"
gloo-utils = { version = "*", features = ["serde"] }
js-sys = "*"
serde = { version = "*", features = ["derive"] }
wasm-bindgen = "*"
wasm-bindgen-futures = "*"
web-sys = { version = "*", features = ["console", "Window", "Document", "Element", "Node", "HtmlElement", "HtmlCanvasElement", "HtmlImageElement", "CanvasRenderingContext2d", "Response", "KeyboardEvent", "Performance", "AudioContext", "AudioBuffer", "AudioBufferSourceNode", "AudioDestinationNode", "AudioNode", "EventTarget"] }
