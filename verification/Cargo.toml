[package]
name = "annotate"
version = "0.1.0"
edition = "2021"
publish = false

[dependencies]
serde = { version = "1", features = ["derive"] }
serde_json = "1"
leptos = { version = "0.6", features = ["csr"] }
wasm-bindgen = "0.2"
wasm-bindgen-futures = "0.4"
js-sys = "0.3"
console_error_panic_hook = "0.1"
web-sys = { version = "0.3", features = ["Window", "Document", "Element", "HtmlElement", "Node", "Selection", "Range", "DomRectList", "DomRectReadOnly", "Location", "Navigator", "Clipboard", "Request", "RequestInit", "Response", "Headers", "Event", "MouseEvent", "EventTarget"] }
