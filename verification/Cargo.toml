[package]
name = "automobile_inventory"
version = "0.1.0"
edition = "2021"
publish = false

[dependencies]
uuid = { version = "*", features = ["v4"] }
serde_json = "*"
chrono = "*"
serde = { version = "*", features = ["derive"] }
tokio = { version = "*", features = ["rt-multi-thread", "macros", "signal", "time", "net", "sync"] }
axum = "*"
