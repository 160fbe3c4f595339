[package]
name = "request_bridge"
version = "0.1.0"
edition = "2021"
publish = false

[dependencies]
pyo3 = "0.20"
pyo3-asyncio = { version = "0.20", features = ["tokio-runtime"] }
reqwest = { version = "0.11", default-features = false, features = ["rustls-tls"] }
