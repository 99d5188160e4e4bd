[package]
name = "apis"
version = "0.1.0"
edition = "2021"
publish = false

[dependencies]
codee = { version = "0.3", features = ["msgpack_serde"] }
leptos = { version = "0.8" }
leptos-use = { version = "*", default-features = false, features = ["use_websocket"] }
serde = { version = "1", features = ["derive"] }
