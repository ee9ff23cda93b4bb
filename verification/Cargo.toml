[package]
name = "flumox"
version = "0.1.0"
edition = "2021"
publish = false

[dependencies]
unicode-normalization = "*"
getrandom = "*"
base64 = "*"
axum = { version = "*", features = ["ws"] }
tokio = { version = "*", features = ["full"] }
tokio-postgres = { version = "*", features = ["with-uuid-1", "with-time-0_3", "with-serde_json-1"] }
deadpool-postgres = "*"
serde = { version = "*", features = ["derive"] }
serde_json = "*"
uuid = { version = "*", features = ["v4", "v7", "serde"] }
time = { version = "*", features = ["serde-well-known", "formatting", "parsing"] }
parking_lot = "*"
flate2 = "*"
futures = "*"
