[package]
name = "plasma_protocol"
version = "0.1.0"
edition = "2021"
publish = false

[dependencies]
arrayvec = { version = "=0.7.8", features = ["serde"] }
bitcode = { version = "=0.6.9", features = ["derive", "serde", "arrayvec"] }
derive_more = "=0.99.20"
hyperloglog = "=1.0.4"
log = "=0.4.34"
rand = "=0.8.8"
rustrict = { version = "=0.7.39", features = ["width"] }
serde = { version = "=1.0.229", features = ["derive"] }
serde-big-array = "=0.5.1"
serde_json = { version = "=1.0.154", features = ["raw_value"] }
strum = { version = "=0.26.3", features = ["derive"] }
