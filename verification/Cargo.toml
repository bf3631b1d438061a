[package]
name = "sherlock"
version = "0.1.0"
edition = "2021"
publish = false

[dependencies]
serde = { version = "1", features = ["derive"] }
serde_json = "1"
simd-json = "*"
futures = "0.3"
gtk4 = "*"
gio = "*"
