[package]
name = "grafbase"
version = "0.1.0"
edition = "2021"
publish = false

[dependencies]
chrono = { version = "0.4", default-features = false, features = ["std", "clock"] }
regex = "1"
url = "2"
itertools = "*"
json_dotpath = "1"
jwt-compact = { version = "*", features = ["rsa"] }
serde = { version = "1", features = ["derive"] }
serde_json = "1"
lru = "*"
secrecy = "*"
reqwest = { version = "*", default-features = false, features = ["json"] }

[dev-dependencies]
