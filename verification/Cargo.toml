[package]
name = "noir_atelier"
version = "0.1.0"
edition = "2021"
publish = false

[dependencies]
serde = { version = "1", features = ["derive"] }
serde_json = "1"
yew = { version = "0.21", features = ["csr"] }
yew-router = "0.18"
gloo-net = { version = "0.5", features = ["http", "json"] }
gloo-storage = "0.3"
wasm-bindgen-futures = "0.4"
web-sys = { version = "0.3", features = ["HtmlInputElement", "HtmlTextAreaElement", "Window", "Document", "Element"] }
