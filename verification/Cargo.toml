[package]
name = "attribute_store"
version = "0.1.0"
edition = "2021"
publish = false

[dependencies]
base64 = "*"
tokio = { version = "*", default-features = false, features = ["sync"] }
parking_lot = "*"
