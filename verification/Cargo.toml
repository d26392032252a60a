[package]
name = "mini_audit"
version = "0.1.0"
edition = "2021"
publish = false

[dependencies]
console_error_panic_hook = "0.1"
serde = { version = "1", features = ["derive"] }
serde_json = "1"
serde_yaml = "0.9"
uuid = { version = "1", features = ["v4"] }
wasm-bindgen = "0.2"
wasm-bindgen-futures = "0.4"
web-sys = { version = "0.3", features = ["CanvasRenderingContext2d", "Element", "Event", "EventTarget", "Headers", "HtmlCanvasElement", "HtmlInputElement", "HtmlTextAreaElement", "InputEvent", "Request", "RequestInit", "RequestMode", "Response", "SubmitEvent", "Window"] }
yew = { version = "0.21", features = ["csr"] }
