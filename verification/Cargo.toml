[package]
name = "websites"
version = "0.1.0"
edition = "2021"
publish = false

[dependencies]
http = "*"
slug = "*"
infer = "*"
nanoid = "*"
uuid = { version = "*", features = ["v4"] }
tokio = { version = "*", features = ["rt-multi-thread", "macros", "time"] }
deadpool-postgres = "*"
tokio-postgres = { version = "*", features = ["with-chrono-0_4"] }
reqwest = { version = "*", default-features = false, features = ["json"] }
serde = { version = "*", features = ["derive"] }
serde_json = "*"
chrono = "*"
