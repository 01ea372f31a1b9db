[package]
name = "snowman"
version = "0.1.0"
edition = "2021"
publish = false

[dependencies]
futures-intrusive = "0.5"
futures-util = "0.3"
hyper = { version = "0.14", features = ["full"] }
parking_lot = "*"
serde = { version = "1", features = ["derive"] }
serde_json = "1"
tokio = { version = "1", features = ["full"] }
tower-service = "0.3"
