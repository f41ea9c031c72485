[package]
name = "turbobench"
version = "0.1.0"
edition = "2021"
publish = false

[dependencies]
axum = "=0.8.9"
chrono = { version = "=0.4.45", features = ["serde"] }
clap = { version = "=4.6.7", default-features = false, features = ["std", "derive", "help", "usage", "error-context", "suggestions"] }
colored = "=3.1.1"
comfy-table = "=7.2.2"
serde = { version = "=1.0.229", features = ["derive"] }
serde_json = { version = "=1.0.154", features = ["preserve_order"] }
tokio = { version = "=1.54.1", features = ["full"] }
toml = "=0.9.12"
tower-http = { version = "=0.6.11", features = ["limit", "timeout"] }
tracing = "=0.1.44"
tracing-subscriber = { version = "=0.3.23", features = ["env-filter"] }
turbomcp-core = { version = "=3.0.14", default-features = false }
turbomcp-protocol = "=3.0.14"
turbomcp-proxy = { version = "=3.0.14", default-features = false, features = ["runtime", "introspection"] }
turbomcp-transport = { version = "=3.0.14", features = ["http"] }
turbomcp-types = { version = "=3.0.14", default-features = false }
uuid = { version = "=1.29.0", features = ["v4"] }
