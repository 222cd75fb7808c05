[package]
name = "colonist"
version = "0.1.0"
edition = "2021"
publish = false

[dependencies]
uuid = { version = "1", features = ["serde", "v4", "js"] }
serde = { version = "1", features = ["derive"] }
serde_json = "1"
leptos = { version = "0.6", features = ["csr"] }
leptos_dom = "0.6"
gloo-net = { version = "0.5", features = ["websocket"] }
futures = "0.3"
web-sys = { version = "0.3", features = ["Window", "Storage", "Location", "Document", "Element", "DomRect"] }
js-sys = "0.3"
wasm-bindgen = "0.2"
