[package]
name = "van_finder"
version = "0.1.0"
edition = "2021"
publish = false

[dependencies]
chrono = "*"
dotenv = "*"
lettre = { version = "*", default-features = false, features = ["smtp-transport", "builder"] }
once_cell = "*"
reqwest = { version = "*", default-features = false, features = ["json"] }
serde = { version = "*", features = ["derive"] }
serde_json = "*"
thiserror = "*"
tokio = { version = "*", features = ["rt-multi-thread", "macros", "time", "fs"] }
tracing = "*"
tracing-subscriber = { version = "*", features = ["fmt", "env-filter"] }
