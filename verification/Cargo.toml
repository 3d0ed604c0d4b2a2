[package]
name = "spe"
version = "0.1.0"
edition = "2021"
publish = false

[dependencies]
unicode-normalization = "0.1"
lopdf = "*"
serde = { version = "1", features = ["derive"] }
serde_json = "1"
skrifa = "*"
image = { version = "*", default-features = false, features = ["png"] }
tempfile = "3"
thiserror = "2"
tokio = { version = "1", features = ["net", "io-util", "sync", "time", "rt", "macros"] }
