[package]
name = "dynisland"
version = "0.1.0"
edition = "2021"
publish = false

[dependencies]
grass = "*"
ron = "*"
serde = { version = "1", features = ["derive"] }
notify = "*"
log = "0.4"
