[package]
name = "blive"
version = "0.1.0"
edition = "2021"
publish = false

[dependencies]
flate2 = "*"
serde_json = "*"
md-5 = "*"
hmac = "*"
sha2 = "*"
hex = "*"
tokio = { version = "*", default-features = false, features = ["rt-multi-thread", "time", "sync"] }
tokio-tungstenite = "*"
futures = "*"
reqwest = { version = "*", default-features = false, features = ["blocking"] }
