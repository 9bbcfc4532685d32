[package]
name = "anki_copy_card"
version = "0.1.0"
edition = "2021"
publish = false

[dependencies]
ammonia = "*"
anyhow = "*"
crossbeam = "*"
serde = { version = "*", features = ["derive"] }
serde_json = "*"
ureq = { version = "2", default-features = false, features = ["json"] }
