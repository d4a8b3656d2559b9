[package]
name = "crossword_web"
version = "0.1.0"
edition = "2021"
publish = false

[dependencies]
serde = { version = "=1.0.229", features = ["derive"] }
serde_json = "=1.0.154"
js-sys = "=0.3.107"
wasm-bindgen = "=0.2.130"
web-sys = { version = "=0.3.107", features = ["Window", "Location"] }
wasm-bindgen-futures = "0.4"
gloo-net = { version = "*", default-features = false, features = ["http", "json"] }
gloo-timers = { version = "*", features = ["futures"] }
futures = "0.3"
