[package]
name = "sector_marshal"
version = "0.1.0"
edition = "2021"
publish = false

[dependencies]
anyhow = "*"
lazy_static = "*"
log = "*"
rayon = "*"
reqwest = { version = "*", default-features = false, features = ["blocking", "json"] }
serde = { version = "*", features = ["derive"] }
serde_json = "*"
