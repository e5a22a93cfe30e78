[package]
name = "riiman"
version = "0.1.0"
edition = "2021"
publish = false

[dependencies]
uuid = { version = "=1.29.0", features = ["v4"] }
dashmap = "=5.5.3"
chrono = { version = "=0.4.45", default-features = false, features = ["clock", "std"] }
url = "=2.5.8"
serde_json = "=1.0.154"
indexmap = "=2.14.2"
moka = { version = "=0.12.16", features = ["sync"] }
egui = "=0.27.2"
itertools = "=0.12.1"
relativetime = { version = "=0.1.4", features = ["chrono"] }
