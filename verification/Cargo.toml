[package]
name = "caser"
version = "0.1.0"
edition = "2021"
publish = false

[dependencies]
chrono = { version = "0.4", default-features = false, features = ["std", "serde"] }
uuid = { version = "1", features = ["serde", "v4"] }
url = "2"
serde = { version = "1", features = ["derive"] }
reqwest = { version = "0.12", default-features = false, features = ["json"] }
schemars = { version = "0.8", features = ["chrono", "uuid1"] }
thiserror = "1"
