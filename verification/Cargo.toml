[package]
name = "webhook_core"
version = "0.1.0"
edition = "2021"
publish = false

[dependencies]
hmac = "=0.13.0"
sha2 = "=0.11.0"
hex = "=0.4.3"
serde_json = "=1.0.151"
serde = { version = "=1.0.229", features = ["derive"] }
axum = "=0.8.9"
tokio = { version = "=1.53.2", features = ["macros", "rt-multi-thread"] }
tower-http = { version = "=0.7.1", features = ["cors"] }
dotenvy = "=0.15.7"
tracing = "=0.1.44"
tracing-subscriber = { version = "=0.3.23", features = ["env-filter"] }
wasm-bindgen = "=0.2.129"
async-stripe = { version = "*", default-features = false, features = ["runtime-tokio-hyper-rustls", "checkout"] }
