[package]
name = "fx_event_bus"
version = "0.1.0"
edition = "2021"
publish = false

[dependencies]
anyhow = "1"
chrono = "=0.4.45"
const-fnv1a-hash = "=1.1.0"
futures = "=0.3.34"
serde = { version = "=1.0.229", features = ["derive"] }
serde_json = "=1.0.154"
sqlx = { version = "=0.8.6", default-features = false, features = ["postgres", "runtime-tokio", "chrono", "uuid", "json", "migrate"] }
thiserror = "=2.0.21"
tokio = { version = "=1.54.1", features = ["rt", "time"] }
tracing = "=0.1.44"
uuid = { version = "=1.29.0", features = ["v7"] }
