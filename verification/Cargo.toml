[package]
name = "attr_engine"
version = "0.1.0"
edition = "2021"
publish = false

[dependencies]
leptos = { version = "=0.7.8", features = ["csr"] }
leptos-typed-fallback-show = "0.1"
