[package]
name = "hopper"
version = "0.1.0"
edition = "2021"
publish = false

[dependencies]
ordermap = "*"
anyhow = "*"
axum = "*"
axum-htmx = { version = "*", features = ["auto-vary"] }
axum-template = { version = "*", features = ["minijinja"] }
http = "*"
minijinja = "*"
moka = { version = "*", features = ["future"] }
reqwest = { version = "*", default-features = false, features = ["rustls-tls", "json"] }
serde = { version = "*", features = ["derive"] }
tokio = { version = "*", features = ["rt-multi-thread", "macros", "signal", "net"] }
tokio-util = { version = "*", features = ["rt"] }
tower = { version = "*", features = ["util"] }
tower-http = { version = "*", features = ["cors", "timeout", "trace"] }
tracing = "*"
tracing-subscriber = { version = "*", features = ["env-filter", "fmt"] }
